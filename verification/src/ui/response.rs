//! The styled lines of the response panel, made anew only when the response
//! or its text changed.
use crate::text::{from_chars, join, joined, strings_view, texts_view, to_chars};
use crate::ui::cache::WrapCache;
use crate::ui::colors::{colorize_headers, headers_cells, is_json_response, names_json, styled};
use crate::ui::json::{colorize_json, scan_lines, scanned};
use crate::ui::style::{Cell, Line, Style};
use crate::ui::wrap::{all_merged, lines_cells};
use crate::app::looks_like_json;
use vstd::prelude::*;

verus! {

/// The styled lines of a response body with what they were made from.
#[derive(Debug, Clone)]
pub struct ResponseBodyRenderCache {
    /// The body changed since the lines were made.
    pub dirty: bool,
    /// Counts the times the lines were made; the key of the wrap cache.
    pub generation: u64,
    pub body_text: String,
    pub is_json: bool,
    pub lines: Vec<Line>,
    pub wrap_cache: WrapCache,
}

/// The styled lines of the response headers with what they were made from.
#[derive(Debug, Clone)]
pub struct ResponseHeadersRenderCache {
    pub dirty: bool,
    pub generation: u64,
    pub lines: Vec<Line>,
    pub wrap_cache: WrapCache,
}

/// Each line as plain cells.
pub open spec fn plain_cells(lines: Seq<String>) -> Seq<Seq<Cell>> {
    Seq::new(lines.len(), |i: int| styled(lines[i]@, Style::plain()))
}

/// The generation after `g`, going round at the largest value.
pub open spec fn next_generation(g: u64) -> u64 {
    if g == u64::MAX {
        0
    } else {
        (g + 1) as u64
    }
}

/// `post` is the wrap cache `pre` marked as stale: its generation is 0,
/// which no content has.
pub open spec fn staled(pre: WrapCache, post: WrapCache) -> bool {
    post == (WrapCache { generation: 0, ..pre })
}

/// The lines as text, joined by line feeds.
pub fn join_lines(lines: &Vec<String>) -> (text: String)
    ensures
        text@ == joined(strings_view(lines@), seq!['\n']),
{
    let mut parts: Vec<Vec<char>> = Vec::new();
    let mut i: usize = 0;
    while i < lines.len()
        invariant
            i <= lines.len(),
            texts_view(parts@) == strings_view(lines@).take(i as int),
        decreases lines.len() - i,
    {
        let ghost held = texts_view(parts@);
        let part = to_chars(lines[i].as_str());
        parts.push(part);
        i += 1;
        proof {
            assert(texts_view(parts@) =~~= held.push(lines@[i - 1]@));
            assert(texts_view(parts@) =~~= strings_view(lines@).take(i as int));
        }
    }
    proof {
        assert(strings_view(lines@).take(i as int) =~= strings_view(lines@));
    }
    let mut sep: Vec<char> = Vec::new();
    sep.push('\n');
    let text = join(&parts, &sep);
    from_chars(&text)
}

/// Each line as one plain styled line.
pub fn plain_lines(lines: &Vec<String>) -> (out: Vec<Line>)
    ensures
        lines_cells(out@) == plain_cells(lines@),
        all_merged(out@),
{
    let mut out: Vec<Line> = Vec::new();
    let mut i: usize = 0;
    while i < lines.len()
        invariant
            i <= lines.len(),
            lines_cells(out@) == plain_cells(lines@).take(i as int),
            all_merged(out@),
        decreases lines.len() - i,
    {
        let ghost held = lines_cells(out@);
        let line = Line::from_text(lines[i].clone());
        proof {
            assert(line.cells() =~= styled(lines@[i as int]@, Style::plain())) by {
                let cells = line.cells();
                let want = styled(lines@[i as int]@, Style::plain());
                assert(crate::ui::style::cell_text(cells) == lines@[i as int]@);
                assert(cells.len() == want.len());
                if line.spans@.len() == 0 {
                    assert(cells =~= want);
                } else {
                    assert(line.spans@.drop_last() =~= Seq::empty());
                    assert(crate::ui::style::cells_of(Seq::empty()) =~= Seq::<Cell>::empty());
                    assert(cells =~= crate::ui::style::span_cells(line.spans@[0]));
                    assert forall|k: int| 0 <= k < cells.len() implies cells[k] == want[k] by {
                        assert(crate::ui::style::cell_text(cells)[k] == cells[k].0);
                    }
                    assert(cells =~= want);
                }
            }
        }
        out.push(line);
        i += 1;
        proof {
            assert(lines_cells(out@) =~~= held.push(styled(lines@[i - 1]@, Style::plain())));
            assert(lines_cells(out@) =~~= plain_cells(lines@).take(i as int));
        }
    }
    proof {
        assert(plain_cells(lines@).take(i as int) =~= plain_cells(lines@));
    }
    out
}

impl ResponseBodyRenderCache {
    /// A cache that has yet to make its lines.
    pub fn new() -> (c: ResponseBodyRenderCache)
        ensures
            c.dirty,
            c.generation == 0,
            c.body_text@.len() == 0,
            !c.is_json,
            c.lines@.len() == 0,
            c.wrap_cache.recomputes == 0,
            c.wrap_cache.generation == 0,
            c.wrap_cache.width == 0,
    {
        ResponseBodyRenderCache {
            dirty: true,
            generation: 0,
            body_text: String::new(),
            is_json: false,
            lines: Vec::new(),
            wrap_cache: WrapCache::new(),
        }
    }

    /// `post` is this cache after its lines were made from the lines of the
    /// response editor and the response's headers.
    pub open spec fn prepared(
        self,
        post: ResponseBodyRenderCache,
        editor_lines: Seq<String>,
        headers: Seq<(String, String)>,
    ) -> bool {
        if !self.dirty {
            post == self
        } else {
            &&& !post.dirty
            &&& post.generation == next_generation(self.generation)
            &&& post.body_text@ == joined(strings_view(editor_lines), seq!['\n'])
            &&& post.is_json == (names_json(headers) || looks_like_json(post.body_text@))
            &&& lines_cells(post.lines@) == if post.is_json {
                scan_lines(scanned(post.body_text@))
            } else {
                plain_cells(editor_lines)
            }
            &&& all_merged(post.lines@)
            &&& staled(self.wrap_cache, post.wrap_cache)
        }
    }

    /// Makes the lines anew if the body changed: colored as JSON where the
    /// response is JSON, plain otherwise. The wrap cache is marked as stale.
    pub fn prepare(&mut self, editor_lines: &Vec<String>, headers: &Vec<(String, String)>)
        ensures
            old(self).prepared(*final(self), editor_lines@, headers@),
    {
        if self.dirty {
            self.body_text = join_lines(editor_lines);
            self.is_json = is_json_response(headers, self.body_text.as_str());
            self.lines = if self.is_json {
                colorize_json(self.body_text.as_str())
            } else {
                plain_lines(editor_lines)
            };
            self.generation = self.generation.wrapping_add(1);
            self.dirty = false;
            self.wrap_cache.generation = 0;
        }
    }
}

impl ResponseHeadersRenderCache {
    /// A cache that has yet to make its lines.
    pub fn new() -> (c: ResponseHeadersRenderCache)
        ensures
            c.dirty,
            c.generation == 0,
            c.lines@.len() == 0,
            c.wrap_cache.recomputes == 0,
            c.wrap_cache.generation == 0,
            c.wrap_cache.width == 0,
    {
        ResponseHeadersRenderCache {
            dirty: true,
            generation: 0,
            lines: Vec::new(),
            wrap_cache: WrapCache::new(),
        }
    }

    /// `post` is this cache after its lines were made from the header lines.
    pub open spec fn prepared(self, post: ResponseHeadersRenderCache, header_lines: Seq<String>) -> bool {
        if !self.dirty {
            post == self
        } else {
            &&& !post.dirty
            &&& post.generation == next_generation(self.generation)
            &&& lines_cells(post.lines@) == headers_cells(header_lines)
            &&& all_merged(post.lines@)
            &&& staled(self.wrap_cache, post.wrap_cache)
        }
    }

    /// Makes the lines anew if the headers changed. The wrap cache is marked
    /// as stale.
    pub fn prepare(&mut self, header_lines: &Vec<String>)
        ensures
            old(self).prepared(*final(self), header_lines@),
    {
        if self.dirty {
            self.lines = colorize_headers(header_lines);
            self.generation = self.generation.wrapping_add(1);
            self.dirty = false;
            self.wrap_cache.generation = 0;
        }
    }
}

} // verus!
