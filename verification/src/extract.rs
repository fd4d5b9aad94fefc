//! The block extractor: finds every private block of a chapter's text and,
//! per the configuration, deletes it, wraps it in a styled container, or
//! unwraps it to its bare payload.
//!
//! A block begins with `<!--`, optional whitespace, the whole word `private`
//! and more optional whitespace; its payload runs, shortest match, to the
//! nearest `-->`, trailing whitespace excluded; one line break right after
//! the closing delimiter is consumed with the block.

use vstd::prelude::*;
use crate::config::{Config, GConfig};
use crate::text::{
    block_close, block_close_vec, span_close, span_close_vec, style_open, style_open_vec,
};

verus! {

/// Whitespace, as the block delimiters admit it.
pub open spec fn is_ws(b: u8) -> bool {
    b == 32 || b == 9 || b == 10 || b == 13 || b == 11 || b == 12
}

/// A word byte: the keyword must not be the prefix of a longer word.
pub open spec fn is_word_byte(b: u8) -> bool {
    (48 <= b && b <= 57) || (65 <= b && b <= 90) || (97 <= b && b <= 122) || b == 95
}

/// A line break byte.
pub open spec fn is_break(b: u8) -> bool {
    b == 10 || b == 13
}

/// The end of the whitespace run that starts at `i`.
pub open spec fn ws_end(s: Seq<u8>, i: int) -> int
    decreases s.len() - i
        when 0 <= i <= s.len()
{
    if i < s.len() && is_ws(s[i]) {
        ws_end(s, i + 1)
    } else {
        i
    }
}

/// The start of the whitespace run that ends at `e`, bounded below by `lo`.
pub open spec fn ws_start(s: Seq<u8>, lo: int, e: int) -> int
    decreases e - lo
        when 0 <= lo <= e <= s.len()
{
    if e > lo && is_ws(s[e - 1]) {
        ws_start(s, lo, e - 1)
    } else {
        e
    }
}

/// The whole word `private` stands at `j`.
pub open spec fn keyword_at(s: Seq<u8>, j: int) -> bool {
    &&& 0 <= j
    &&& j + 7 <= s.len()
    &&& s[j] == 112
    &&& s[j + 1] == 114
    &&& s[j + 2] == 105
    &&& s[j + 3] == 118
    &&& s[j + 4] == 97
    &&& s[j + 5] == 116
    &&& s[j + 6] == 101
    &&& (j + 7 == s.len() || !is_word_byte(s[j + 7]))
}

/// A block's opening marker stands at `i`: `<!--`, optional whitespace, then
/// the whole word `private`.
pub open spec fn open_at(s: Seq<u8>, i: int) -> bool {
    &&& 0 <= i
    &&& i + 4 <= s.len()
    &&& s[i] == 60
    &&& s[i + 1] == 33
    &&& s[i + 2] == 45
    &&& s[i + 3] == 45
    &&& keyword_at(s, ws_end(s, i + 4))
}

/// Where the payload of the block opened at `i` starts: after the keyword and
/// the whitespace that follows it.
pub open spec fn payload_start(s: Seq<u8>, i: int) -> int {
    ws_end(s, ws_end(s, i + 4) + 7)
}

/// The closing delimiter `-->` stands at `c`.
pub open spec fn close_at(s: Seq<u8>, c: int) -> bool {
    &&& 0 <= c
    &&& c + 3 <= s.len()
    &&& s[c] == 45
    &&& s[c + 1] == 45
    &&& s[c + 2] == 62
}

/// The first position at or after `i` where a block opens, if any.
pub open spec fn find_open(s: Seq<u8>, i: int) -> Option<int>
    decreases s.len() - i
        when 0 <= i <= s.len()
{
    if i + 4 > s.len() {
        Option::None
    } else if open_at(s, i) {
        Option::Some(i)
    } else {
        find_open(s, i + 1)
    }
}

/// The first position at or after `i` of the closing delimiter, if any.
pub open spec fn find_close(s: Seq<u8>, i: int) -> Option<int>
    decreases s.len() - i
        when 0 <= i <= s.len()
{
    if i + 3 > s.len() {
        Option::None
    } else if close_at(s, i) {
        Option::Some(i)
    } else {
        find_close(s, i + 1)
    }
}

/// One matched block: the span `[start, end)` of the text it replaces and the
/// span `[pstart, pend)` of its payload.
pub ghost struct BlockMatch {
    pub start: int,
    pub pstart: int,
    pub pend: int,
    pub end: int,
}

/// The first block at or after `k`: the first opening marker, its payload up
/// to the nearest closing delimiter with trailing whitespace stripped, and
/// one line break after the delimiter consumed into the span.
pub open spec fn find_block(s: Seq<u8>, k: int) -> Option<BlockMatch> {
    match find_open(s, k) {
        Option::None => Option::None,
        Option::Some(i) => {
            let p = payload_start(s, i);
            match find_close(s, p) {
                Option::None => Option::None,
                Option::Some(c) => {
                    let e = if c + 3 < s.len() && is_break(s[c + 3]) {
                        c + 4
                    } else {
                        c + 3
                    };
                    Option::Some(BlockMatch { start: i, pstart: p, pend: ws_start(s, p, c), end: e })
                }
            }
        }
    }
}

/// What one block's span becomes: nothing in remove mode, the styled wrapper
/// around the notice and the payload in styled mode, and the bare payload
/// with a line break otherwise.
pub open spec fn replacement(payload: Seq<u8>, cfg: GConfig) -> Seq<u8> {
    if cfg.remove {
        Seq::empty()
    } else if cfg.style {
        style_open() + cfg.notice + span_close() + payload + block_close()
    } else {
        payload + seq![10u8]
    }
}

/// The text from `k` on with every block processed, scanning left to right.
pub open spec fn extract_from(s: Seq<u8>, k: int, cfg: GConfig) -> Seq<u8>
    decreases s.len() - k
        when 0 <= k <= s.len()
{
    match find_block(s, k) {
        Option::None => s.subrange(k, s.len() as int),
        Option::Some(m) => {
            proof {
                lemma_find_block(s, k);
            }
            s.subrange(k, m.start) + replacement(s.subrange(m.pstart, m.pend), cfg)
                + extract_from(s, m.end, cfg)
        }
    }
}

/// The whole text with every block processed.
pub open spec fn extract_content(s: Seq<u8>, cfg: GConfig) -> Seq<u8> {
    extract_from(s, 0, cfg)
}

/// The text holds at least one block.
pub open spec fn has_private_block(s: Seq<u8>) -> bool {
    find_block(s, 0) is Some
}

pub proof fn lemma_ws_end(s: Seq<u8>, i: int)
    requires
        0 <= i <= s.len(),
    ensures
        i <= ws_end(s, i) <= s.len(),
        forall|j: int| i <= j < ws_end(s, i) ==> is_ws(s[j]),
        ws_end(s, i) < s.len() ==> !is_ws(s[ws_end(s, i)]),
    decreases s.len() - i,
{
    if i < s.len() && is_ws(s[i]) {
        lemma_ws_end(s, i + 1);
    }
}

pub proof fn lemma_ws_start(s: Seq<u8>, lo: int, e: int)
    requires
        0 <= lo <= e <= s.len(),
    ensures
        lo <= ws_start(s, lo, e) <= e,
        forall|j: int| ws_start(s, lo, e) <= j < e ==> is_ws(s[j]),
        lo < ws_start(s, lo, e) ==> !is_ws(s[ws_start(s, lo, e) - 1]),
    decreases e - lo,
{
    if e > lo && is_ws(s[e - 1]) {
        lemma_ws_start(s, lo, e - 1);
    }
}

pub proof fn lemma_find_open(s: Seq<u8>, i: int)
    requires
        0 <= i <= s.len(),
    ensures
        match find_open(s, i) {
            Option::Some(o) => {
                &&& i <= o
                &&& o + 4 <= s.len()
                &&& open_at(s, o)
                &&& forall|j: int| i <= j < o ==> !open_at(s, j)
            }
            Option::None => forall|j: int| i <= j ==> !open_at(s, j),
        },
    decreases s.len() - i,
{
    if i + 4 <= s.len() && !open_at(s, i) {
        lemma_find_open(s, i + 1);
    }
}

pub proof fn lemma_find_close(s: Seq<u8>, i: int)
    requires
        0 <= i <= s.len(),
    ensures
        match find_close(s, i) {
            Option::Some(c) => {
                &&& i <= c
                &&& c + 3 <= s.len()
                &&& close_at(s, c)
                &&& forall|j: int| i <= j < c ==> !close_at(s, j)
            }
            Option::None => forall|j: int| i <= j ==> !close_at(s, j),
        },
    decreases s.len() - i,
{
    if i + 3 <= s.len() && !close_at(s, i) {
        lemma_find_close(s, i + 1);
    }
}

fn exec_is_ws(b: u8) -> (r: bool)
    ensures
        r == is_ws(b),
{
    b == 32 || b == 9 || b == 10 || b == 13 || b == 11 || b == 12
}

fn exec_is_word_byte(b: u8) -> (r: bool)
    ensures
        r == is_word_byte(b),
{
    (48 <= b && b <= 57) || (65 <= b && b <= 90) || (97 <= b && b <= 122) || b == 95
}

fn exec_ws_end(s: &Vec<u8>, i: usize) -> (r: usize)
    requires
        i <= s.len(),
    ensures
        r as int == ws_end(s@, i as int),
        i <= r <= s.len(),
{
    let mut j = i;
    while j < s.len() && exec_is_ws(s[j])
        invariant
            i <= j <= s.len(),
            ws_end(s@, i as int) == ws_end(s@, j as int),
        decreases s.len() - j,
    {
        j += 1;
    }
    j
}

fn exec_ws_start(s: &Vec<u8>, lo: usize, e: usize) -> (r: usize)
    requires
        lo <= e,
        e <= s.len(),
    ensures
        r as int == ws_start(s@, lo as int, e as int),
        lo <= r <= e,
{
    let mut j = e;
    while j > lo && exec_is_ws(s[j - 1])
        invariant
            lo <= j <= e <= s.len(),
            ws_start(s@, lo as int, e as int) == ws_start(s@, lo as int, j as int),
        decreases j,
    {
        j -= 1;
    }
    j
}

fn exec_open_at(s: &Vec<u8>, i: usize) -> (r: bool)
    requires
        i + 4 <= s.len(),
    ensures
        r == open_at(s@, i as int),
{
    if !(s[i] == 60 && s[i + 1] == 33 && s[i + 2] == 45 && s[i + 3] == 45) {
        return false;
    }
    let j = exec_ws_end(s, i + 4);
    if s.len() - j < 7 {
        return false;
    }
    if !(s[j] == 112 && s[j + 1] == 114 && s[j + 2] == 105 && s[j + 3] == 118 && s[j + 4] == 97
        && s[j + 5] == 116 && s[j + 6] == 101) {
        return false;
    }
    s.len() - j == 7 || !exec_is_word_byte(s[j + 7])
}

fn exec_find_open(s: &Vec<u8>, k: usize) -> (r: Option<usize>)
    requires
        k <= s.len(),
    ensures
        match r {
            Option::Some(i) => k <= i && i + 4 <= s.len() && find_open(s@, k as int) == Option::Some(
                i as int,
            ),
            Option::None => find_open(s@, k as int) is None,
        },
{
    let mut i = k;
    while s.len() - i >= 4
        invariant
            k <= i <= s.len(),
            find_open(s@, k as int) == find_open(s@, i as int),
        decreases s.len() - i,
    {
        if exec_open_at(s, i) {
            return Option::Some(i);
        }
        i += 1;
    }
    Option::None
}

fn exec_find_close(s: &Vec<u8>, k: usize) -> (r: Option<usize>)
    requires
        k <= s.len(),
    ensures
        match r {
            Option::Some(c) => k <= c && c + 3 <= s.len() && find_close(s@, k as int)
                == Option::Some(c as int),
            Option::None => find_close(s@, k as int) is None,
        },
{
    let mut i = k;
    while s.len() - i >= 3
        invariant
            k <= i <= s.len(),
            find_close(s@, k as int) == find_close(s@, i as int),
        decreases s.len() - i,
    {
        if s[i] == 45 && s[i + 1] == 45 && s[i + 2] == 62 {
            return Option::Some(i);
        }
        i += 1;
    }
    Option::None
}

/// One matched block, as positions into the scanned vector.
struct BlockSpan {
    start: usize,
    pstart: usize,
    pend: usize,
    end: usize,
}

fn exec_find_block(s: &Vec<u8>, k: usize) -> (r: Option<BlockSpan>)
    requires
        k <= s.len(),
    ensures
        match r {
            Option::Some(b) => {
                &&& find_block(s@, k as int) == Option::Some(
                    BlockMatch {
                        start: b.start as int,
                        pstart: b.pstart as int,
                        pend: b.pend as int,
                        end: b.end as int,
                    },
                )
                &&& k <= b.start <= b.pstart <= b.pend <= s.len()
                &&& k < b.end <= s.len()
            }
            Option::None => find_block(s@, k as int) is None,
        },
{
    let i = match exec_find_open(s, k) {
        Option::None => {
            return Option::None;
        }
        Option::Some(i) => i,
    };
    proof {
        lemma_find_open(s@, k as int);
        lemma_ws_end(s@, i as int + 4);
        lemma_ws_end(s@, ws_end(s@, i as int + 4) + 7);
    }
    let j = exec_ws_end(s, i + 4);
    let p = exec_ws_end(s, j + 7);
    let c = match exec_find_close(s, p) {
        Option::None => {
            return Option::None;
        }
        Option::Some(c) => c,
    };
    let pend = exec_ws_start(s, p, c);
    let end = if c + 3 < s.len() && (s[c + 3] == 10 || s[c + 3] == 13) {
        c + 4
    } else {
        c + 3
    };
    Option::Some(BlockSpan { start: i, pstart: p, pend, end })
}

/// Appends `s[from..to]` to `out`.
fn append_range(out: &mut Vec<u8>, s: &Vec<u8>, from: usize, to: usize)
    requires
        from <= to,
        to <= s.len(),
    ensures
        final(out)@ == old(out)@ + s@.subrange(from as int, to as int),
{
    let mut i = from;
    while i < to
        invariant
            from <= i <= to <= s.len(),
            out@ == old(out)@ + s@.subrange(from as int, i as int),
        decreases to - i,
    {
        out.push(s[i]);
        i += 1;
        proof {
            assert(out@ =~= old(out)@ + s@.subrange(from as int, i as int));
        }
    }
}

/// Appends the whole of `s` to `out`.
fn append_all(out: &mut Vec<u8>, s: &Vec<u8>)
    ensures
        final(out)@ == old(out)@ + s@,
{
    append_range(out, s, 0, s.len());
    proof {
        assert(old(out)@ + s@.subrange(0, s@.len() as int) =~= old(out)@ + s@);
    }
}

/// Appends what the block's span becomes to `out`.
fn append_replacement(out: &mut Vec<u8>, s: &Vec<u8>, pstart: usize, pend: usize, cfg: &Config)
    requires
        pstart <= pend,
        pend <= s.len(),
    ensures
        final(out)@ == old(out)@ + replacement(s@.subrange(pstart as int, pend as int), cfg@),
{
    let ghost payload = s@.subrange(pstart as int, pend as int);
    if cfg.remove {
        proof {
            assert(out@ =~= old(out)@ + replacement(payload, cfg@));
        }
    } else if cfg.style {
        let opening = style_open_vec();
        append_all(out, &opening);
        append_all(out, &cfg.notice);
        let closing_span = span_close_vec();
        append_all(out, &closing_span);
        append_range(out, s, pstart, pend);
        let closing_block = block_close_vec();
        append_all(out, &closing_block);
        proof {
            assert(out@ =~= old(out)@ + replacement(payload, cfg@));
        }
    } else {
        append_range(out, s, pstart, pend);
        out.push(10);
        proof {
            assert(out@ =~= old(out)@ + replacement(payload, cfg@));
        }
    }
}

/// Scans the whole text and processes every private block: the result is the
/// text with each block's span replaced as the configuration directs, and
/// everything else unchanged.
pub fn extract_private_blocks(content: &Vec<u8>, cfg: &Config) -> (r: Vec<u8>)
    ensures
        r@ == extract_content(content@, cfg@),
{
    let mut out: Vec<u8> = Vec::new();
    let mut k: usize = 0;
    let mut done = false;
    #[verifier::loop_isolation(false)]
    while !done
        invariant
            k <= content.len(),
            done ==> out@ == extract_content(content@, cfg@),
            !done ==> extract_content(content@, cfg@) == out@ + extract_from(
                content@,
                k as int,
                cfg@,
            ),
        decreases content.len() - k + (if done { 0int } else { 1int }),
    {
        match exec_find_block(content, k) {
            Option::None => {
                append_range(&mut out, content, k, content.len());
                done = true;
            }
            Option::Some(b) => {
                let ghost before = out@;
                append_range(&mut out, content, k, b.start);
                append_replacement(&mut out, content, b.pstart, b.pend, cfg);
                proof {
                    let s = content@;
                    let m = find_block(s, k as int).unwrap();
                    assert(out@ + extract_from(s, b.end as int, cfg@) =~= before + (s.subrange(
                        k as int,
                        m.start,
                    ) + replacement(s.subrange(m.pstart, m.pend), cfg@) + extract_from(
                        s,
                        m.end,
                        cfg@,
                    )));
                }
                k = b.end;
            }
        }
    }
    out
}

pub proof fn lemma_find_block(s: Seq<u8>, k: int)
    requires
        0 <= k <= s.len(),
    ensures
        match find_block(s, k) {
            Option::Some(m) => {
                &&& k <= m.start
                &&& open_at(s, m.start)
                &&& m.start + 4 <= m.pstart
                &&& m.pstart == payload_start(s, m.start)
                &&& m.pstart <= m.pend <= s.len()
                &&& m.pend + 3 <= m.end
                &&& k < m.end <= s.len()
            }
            Option::None => true,
        },
{
    lemma_find_open(s, k);
    match find_open(s, k) {
        Option::None => {}
        Option::Some(i) => {
            lemma_ws_end(s, i + 4);
            let j = ws_end(s, i + 4);
            assert(keyword_at(s, j));
            lemma_ws_end(s, j + 7);
            let p = payload_start(s, i);
            lemma_find_close(s, p);
            match find_close(s, p) {
                Option::None => {}
                Option::Some(c) => {
                    lemma_ws_start(s, p, c);
                }
            }
        }
    }
}

/// With no opening marker anywhere in the text, extraction returns it
/// unchanged, whatever the configuration.
pub proof fn lemma_no_marker_unchanged(s: Seq<u8>, cfg: GConfig)
    requires
        forall|i: int| !open_at(s, i),
    ensures
        extract_content(s, cfg) == s,
{
    lemma_find_open(s, 0);
    lemma_no_block_unchanged(s, cfg);
}

/// A text that holds no block is returned unchanged.
pub proof fn lemma_no_block_unchanged(s: Seq<u8>, cfg: GConfig)
    requires
        !has_private_block(s),
    ensures
        extract_content(s, cfg) == s,
{
    assert(s.subrange(0, s.len() as int) =~= s);
}

/// In remove mode the whole span of the first block, its consumed trailing
/// line break included, is deleted: nothing of `[start, end)` reaches the
/// result.
pub proof fn lemma_remove_deletes_block(s: Seq<u8>, cfg: GConfig, m: BlockMatch)
    requires
        cfg.remove,
        find_block(s, 0) == Option::Some(m),
    ensures
        extract_content(s, cfg) == s.subrange(0, m.start) + extract_from(s, m.end, cfg),
{
    lemma_find_block(s, 0);
    assert(extract_content(s, cfg) =~= s.subrange(0, m.start) + extract_from(s, m.end, cfg));
}

/// Extracting again after a removal pass changes nothing more, whenever that
/// pass left no block behind.
pub proof fn lemma_remove_idempotent(s: Seq<u8>, cfg: GConfig)
    requires
        cfg.remove,
        !has_private_block(extract_content(s, cfg)),
    ensures
        extract_content(extract_content(s, cfg), cfg) == extract_content(s, cfg),
{
    lemma_no_block_unchanged(extract_content(s, cfg), cfg);
}

/// In styled mode the first block becomes the styled wrapper: the text before
/// it, the opening tag, the notice, the span-closing tag, the payload
/// verbatim, and the closing tag, then the rest of the scan.
pub proof fn lemma_styled_block(s: Seq<u8>, cfg: GConfig, m: BlockMatch)
    requires
        !cfg.remove,
        cfg.style,
        find_block(s, 0) == Option::Some(m),
    ensures
        extract_content(s, cfg) == s.subrange(0, m.start) + style_open() + cfg.notice
            + span_close() + s.subrange(m.pstart, m.pend) + block_close() + extract_from(
            s,
            m.end,
            cfg,
        ),
{
    lemma_find_block(s, 0);
    assert(extract_content(s, cfg) =~= s.subrange(0, m.start) + style_open() + cfg.notice
        + span_close() + s.subrange(m.pstart, m.pend) + block_close() + extract_from(
        s,
        m.end,
        cfg,
    ));
}

/// In styled mode one block's replacement carries the notice and the payload
/// verbatim, each at its exact place within the wrapper.
pub proof fn lemma_styled_replacement_offsets(payload: Seq<u8>, cfg: GConfig)
    requires
        !cfg.remove,
        cfg.style,
    ensures
        ({
            let r = replacement(payload, cfg);
            let a = style_open().len() as int;
            let b = a + cfg.notice.len();
            let c = b + span_close().len();
            let d = c + payload.len();
            &&& r.len() == d + block_close().len()
            &&& r.subrange(a, b) == cfg.notice
            &&& r.subrange(c, d) == payload
        }),
{
    let r = replacement(payload, cfg);
    let a = style_open().len() as int;
    let b = a + cfg.notice.len();
    let c = b + span_close().len();
    let d = c + payload.len();
    assert(r.subrange(a, b) =~= cfg.notice);
    assert(r.subrange(c, d) =~= payload);
}

} // verus!
