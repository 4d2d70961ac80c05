//! Server-sent events: the `text/event-stream` block grammar and a
//! streaming decoder that turns byte chunks into events.

use vstd::prelude::*;
use vstd::string::*;
use crate::error::{ErrorKind, HttpEgressError};
use vstd::utf8::{valid_utf8, decode_utf8, encode_utf8, encode_scalar, decode_utf8_encode_utf8, encode_utf8_valid_utf8, encode_utf8_decode_utf8};
use crate::text::{chars_of, push_char, range_eq, string_from_range, blank, decode_utf8_lossy, all_white_space, utf8_lossy};

verus! {

/// One event of a `text/event-stream` feed.
#[derive(Clone, Debug, PartialEq, Eq)]
pub struct SseEvent {
    /// The `event:` field, if any.
    pub event: Option<String>,
    /// The `data:` lines, joined with `\n`.
    pub data: String,
    /// The `id:` field, if any.
    pub id: Option<String>,
}

/// An optional string, by its characters.
pub open spec fn opt_chars(o: Option<String>) -> Option<Seq<char>> {
    match o {
        Some(s) => Some(s@),
        None => None,
    }
}

/// The fields of an event: `(event, data, id)`.
pub type EventFields = (Option<Seq<char>>, Seq<char>, Option<Seq<char>>);

impl View for SseEvent {
    type V = (Option<Seq<char>>, Seq<char>, Option<Seq<char>>);

    open spec fn view(&self) -> (Option<Seq<char>>, Seq<char>, Option<Seq<char>>) {
        (opt_chars(self.event), self.data@, opt_chars(self.id))
    }
}

impl SseEvent {
    /// A data-only event with no type or id.
    pub fn data(data: &str) -> (ev: Self)
        ensures
            ev@ == (None::<Seq<char>>, data@, None::<Seq<char>>),
    {
        SseEvent { event: None, data: data.to_owned(), id: None }
    }
}

// ---------------------------------------------------------------------
// The grammar, as spec functions over characters.
// ---------------------------------------------------------------------

/// Index of the first `c` in `s` at or after `k`, or -1.
pub open spec fn index_from(s: Seq<char>, c: char, k: int) -> int
    decreases s.len() - k,
{
    if k < 0 || k >= s.len() {
        -1
    } else if s[k] == c {
        k
    } else {
        index_from(s, c, k + 1)
    }
}

/// `index_from` finds the first match.
pub proof fn lemma_index_from(s: Seq<char>, c: char, k: int, j: int)
    requires
        0 <= k <= j <= s.len(),
        forall|t: int| k <= t < j ==> s[t] != c,
        j < s.len() ==> s[j] == c,
    ensures
        index_from(s, c, k) == (if j < s.len() { j } else { -1 }),
    decreases j - k,
{
    if k < j {
        lemma_index_from(s, c, k + 1, j);
    }
}

/// `index_from` is -1 or a position of `c` at or after `k`.
pub proof fn lemma_index_from_range(s: Seq<char>, c: char, k: int)
    ensures
        index_from(s, c, k) == -1 || (k <= index_from(s, c, k) < s.len() && s[index_from(s, c, k)] == c),
    decreases s.len() - k,
{
    if 0 <= k < s.len() && s[k] != c {
        lemma_index_from_range(s, c, k + 1);
    }
}

/// A line without its trailing `\r`, if it has one.
pub open spec fn strip_cr(l: Seq<char>) -> Seq<char> {
    if l.len() > 0 && l.last() == '\r' {
        l.drop_last()
    } else {
        l
    }
}

/// The lines of `s` as `str::lines` yields them: split at `\n`, a `\r`
/// before the `\n` dropped, no line after a final `\n`.
pub open spec fn lines(s: Seq<char>) -> Seq<Seq<char>>
    decreases s.len(),
{
    if s.len() == 0 {
        seq![]
    } else {
        let i = index_from(s, '\n', 0);
        if i < 0 {
            seq![s]
        } else {
            proof {
                lemma_index_from_range(s, '\n', 0);
            }
            seq![strip_cr(s.take(i))] + lines(s.skip(i + 1))
        }
    }
}

/// `s` without its leading spaces.
pub open spec fn trim_spaces(s: Seq<char>) -> Seq<char>
    decreases s.len(),
{
    if s.len() > 0 && s[0] == ' ' {
        trim_spaces(s.drop_first())
    } else {
        s
    }
}

/// A line split at its first `:` into field name and value (leading spaces
/// of the value dropped); a line without `:` is a field with empty value.
pub open spec fn split_field(line: Seq<char>) -> (Seq<char>, Seq<char>) {
    let i = index_from(line, ':', 0);
    if i < 0 {
        (line, Seq::empty())
    } else {
        (line.take(i), trim_spaces(line.skip(i + 1)))
    }
}

/// The field name `data`.
pub open spec fn field_data() -> Seq<char> {
    seq!['d', 'a', 't', 'a']
}

/// The field name `event`.
pub open spec fn field_event() -> Seq<char> {
    seq!['e', 'v', 'e', 'n', 't']
}

/// The field name `id`.
pub open spec fn field_id() -> Seq<char> {
    seq!['i', 'd']
}

/// The fields after one more line: comments (lines starting with `:`) and
/// unknown fields change nothing, `data` lines are joined with `\n`, and a
/// later `event` or `id` replaces an earlier one.
pub open spec fn apply_line(st: EventFields, line: Seq<char>) -> EventFields {
    if line.len() > 0 && line[0] == ':' {
        st
    } else {
        let (f, v) = split_field(line);
        if f == field_data() {
            (st.0, if st.1.len() == 0 { v } else { st.1.push('\n') + v }, st.2)
        } else if f == field_event() {
            (Some(v), st.1, st.2)
        } else if f == field_id() {
            (st.0, st.1, Some(v))
        } else {
            st
        }
    }
}

/// The fields after all of `ls`, in order.
pub open spec fn apply_lines(st: EventFields, ls: Seq<Seq<char>>) -> EventFields
    decreases ls.len(),
{
    if ls.len() == 0 {
        st
    } else {
        apply_lines(apply_line(st, ls[0]), ls.drop_first())
    }
}

/// No fields yet.
pub open spec fn no_fields() -> EventFields {
    (None, Seq::empty(), None)
}

/// The event a block denotes: none when it carries no data.
pub open spec fn block_event(block: Seq<char>) -> Option<EventFields> {
    let st = apply_lines(no_fields(), lines(block));
    if st.1.len() == 0 {
        None
    } else {
        Some(st)
    }
}

// ---------------------------------------------------------------------
// Parsing one block.
// ---------------------------------------------------------------------

/// First index in `[lo, hi)` holding `c`, or `hi`.
fn find_char(v: &Vec<char>, c: char, lo: usize, hi: usize) -> (r: usize)
    requires
        lo <= hi <= v.len(),
    ensures
        lo <= r <= hi,
        forall|t: int| lo <= t < r ==> v@[t] != c,
        r < hi ==> v@[r as int] == c,
{
    let mut i = lo;
    while i < hi
        invariant
            lo <= i <= hi <= v.len(),
            forall|t: int| lo <= t < i ==> v@[t] != c,
        decreases hi - i,
    {
        if v[i] == c {
            return i;
        }
        i = i + 1;
    }
    i
}

/// Applies the line `v[lo..hi]` to the fields held in `event`, `data`, `id`.
fn apply_line_exec(
    v: &Vec<char>,
    lo: usize,
    hi: usize,
    event: &mut Option<String>,
    data: &mut String,
    id: &mut Option<String>,
)
    requires
        lo <= hi <= v.len(),
    ensures
        (opt_chars(*final(event)), final(data)@, opt_chars(*final(id))) == apply_line(
            (opt_chars(*old(event)), old(data)@, opt_chars(*old(id))),
            v@.subrange(lo as int, hi as int),
        ),
{
    let ghost line = v@.subrange(lo as int, hi as int);
    if lo < hi && v[lo] == ':' {
        return;
    }
    let colon = find_char(v, ':', lo, hi);
    proof {
        assert forall|t: int| 0 <= t < colon - lo implies line[t] != ':' by {
            assert(line[t] == v@[lo + t]);
        }
        if colon < hi {
            assert(line[colon - lo] == v@[colon as int]);
        }
        lemma_index_from(line, ':', 0, colon - lo);
    }
    let mut vstart = hi;
    if colon < hi {
        vstart = colon + 1;
        assert(line.skip(colon - lo + 1) =~= v@.subrange(colon + 1, hi as int));
        while vstart < hi && v[vstart] == ' '
            invariant
                colon < vstart <= hi <= v.len(),
                trim_spaces(line.skip(colon - lo + 1)) == trim_spaces(v@.subrange(vstart as int, hi as int)),
            decreases hi - vstart,
        {
            assert(v@.subrange(vstart as int, hi as int).drop_first() =~= v@.subrange(vstart + 1, hi as int));
            vstart = vstart + 1;
        }
        assert(line.skip(colon - lo + 1) =~= v@.subrange(colon + 1, hi as int));
        assert(vstart == hi || v@.subrange(vstart as int, hi as int)[0] != ' ');
    }
    let ghost fv = split_field(line);
    proof {
        if colon < hi {
            assert(fv.0 =~= v@.subrange(lo as int, colon as int));
            assert(fv.1 == v@.subrange(vstart as int, hi as int));
        } else {
            assert(fv.0 =~= v@.subrange(lo as int, colon as int));
            assert(fv.1 =~= v@.subrange(vstart as int, hi as int));
        }
    }
    let name_data: Vec<char> = vec!['d', 'a', 't', 'a'];
    let name_event: Vec<char> = vec!['e', 'v', 'e', 'n', 't'];
    let name_id: Vec<char> = vec!['i', 'd'];
    assert(name_data@ =~= field_data());
    assert(name_event@ =~= field_event());
    assert(name_id@ =~= field_id());
    if range_eq(v, lo, colon, &name_data) {
        let value = string_from_range(v, vstart, hi);
        if !data.as_str().is_empty() {
            push_char(data, '\n');
        }
        data.append(value.as_str());
    } else if range_eq(v, lo, colon, &name_event) {
        *event = Some(string_from_range(v, vstart, hi));
    } else if range_eq(v, lo, colon, &name_id) {
        *id = Some(string_from_range(v, vstart, hi));
    }
}

fn copy_opt(o: &Option<String>) -> (r: Option<String>)
    ensures
        opt_chars(r) == opt_chars(*o),
{
    match o {
        Some(s) => Some(s.clone()),
        None => None,
    }
}

/// A copy of an event with the same fields.
fn copy_event(e: &SseEvent) -> (r: SseEvent)
    ensures
        r@ == e@,
{
    SseEvent { event: copy_opt(&e.event), data: e.data.clone(), id: copy_opt(&e.id) }
}

/// An optional event, by its fields.
pub open spec fn opt_event(r: Option<SseEvent>) -> Option<EventFields> {
    match r {
        Some(e) => Some(e@),
        None => None,
    }
}

/// Parses the block `v[lo..hi]`.
fn parse_block_range(v: &Vec<char>, lo: usize, hi: usize) -> (r: Option<SseEvent>)
    requires
        lo <= hi <= v.len(),
    ensures
        opt_event(r) == block_event(v@.subrange(lo as int, hi as int)),
{
    let ghost s = v@.subrange(lo as int, hi as int);
    let mut event: Option<String> = None;
    let mut data = String::new();
    let mut id: Option<String> = None;
    let mut pos = lo;
    assert(v@.subrange(pos as int, hi as int) == s);
    while pos < hi
        invariant
            lo <= pos <= hi <= v.len(),
            apply_lines(no_fields(), lines(s)) == apply_lines(
                (opt_chars(event), data@, opt_chars(id)),
                lines(v@.subrange(pos as int, hi as int)),
            ),
        decreases hi - pos,
    {
        let ghost t = v@.subrange(pos as int, hi as int);
        let ghost before = (opt_chars(event), data@, opt_chars(id));
        let nl = find_char(v, '\n', pos, hi);
        proof {
            assert forall|k: int| 0 <= k < nl - pos implies t[k] != '\n' by {
                assert(t[k] == v@[pos + k]);
            }
            if nl < hi {
                assert(t[nl - pos] == v@[nl as int]);
            }
            lemma_index_from(t, '\n', 0, nl - pos);
        }
        let mut end = nl;
        if nl < hi && end > pos && v[end - 1] == '\r' {
            end = end - 1;
        }
        apply_line_exec(v, pos, end, &mut event, &mut data, &mut id);
        let next = if nl < hi { nl + 1 } else { hi };
        proof {
            let line = v@.subrange(pos as int, end as int);
            let rest = v@.subrange(next as int, hi as int);
            if nl < hi {
                assert(strip_cr(t.take(nl - pos)) =~= line);
                assert(t.skip(nl - pos + 1) =~= rest);
                assert(lines(t) == seq![line] + lines(rest));
                assert((seq![line] + lines(rest)).drop_first() =~= lines(rest));
            } else {
                assert(t =~= line);
                assert(rest.len() == 0);
                assert(lines(t) == seq![line]);
                assert(seq![line].drop_first() =~= lines(rest));
            }
        }
        pos = next;
    }
    if data.as_str().is_empty() {
        None
    } else {
        Some(SseEvent { event, data, id })
    }
}

/// Parses one `text/event-stream` block: `block_event` of its characters.
pub fn parse_sse_block(block: &str) -> (r: Option<SseEvent>)
    ensures
        opt_event(r) == block_event(block@),
{
    let v = chars_of(block);
    assert(v@.subrange(0, v@.len() as int) == v@);
    parse_block_range(&v, 0, v.len())
}

// ---------------------------------------------------------------------
// Streaming: a feed is split into blocks at blank lines (`\n\n`).
// ---------------------------------------------------------------------

/// `s[t..t + 2]` is a blank line separator `\n\n`.
pub open spec fn blank_at(s: Seq<char>, t: int) -> bool {
    0 <= t && t + 1 < s.len() && s[t] == '\n' && s[t + 1] == '\n'
}

/// Start of the first `\n\n` at or after `k`, or -1.
pub open spec fn blank_from(s: Seq<char>, k: int) -> int
    decreases s.len() - k,
{
    if k < 0 || k + 1 >= s.len() {
        -1
    } else if s[k] == '\n' && s[k + 1] == '\n' {
        k
    } else {
        blank_from(s, k + 1)
    }
}

/// `blank_from` finds the first separator.
pub proof fn lemma_blank_from(s: Seq<char>, k: int, j: int)
    requires
        0 <= k <= j,
        forall|t: int| k <= t < j ==> !blank_at(s, t),
        blank_at(s, j) || j + 1 >= s.len(),
    ensures
        blank_from(s, k) == (if j + 1 < s.len() { j } else { -1 }),
    decreases j - k,
{
    if k < j && k + 1 < s.len() {
        assert(!blank_at(s, k));
        lemma_blank_from(s, k + 1, j);
    }
}

/// `blank_from` is -1 or a separator position at or after `k`.
pub proof fn lemma_blank_from_range(s: Seq<char>, k: int)
    ensures
        blank_from(s, k) == -1 || (k <= blank_from(s, k) && blank_at(s, blank_from(s, k))),
        k >= 0 && blank_from(s, k) == -1 ==> forall|t: int| k <= t ==> !blank_at(s, t),
    decreases s.len() - k,
{
    if 0 <= k && k + 1 < s.len() && !(s[k] == '\n' && s[k + 1] == '\n') {
        lemma_blank_from_range(s, k + 1);
    }
    if k >= 0 && blank_from(s, k) == -1 {
        assert forall|t: int| k <= t implies !blank_at(s, t) by {
            if k + 1 >= s.len() {
            } else {
                assert(!(s[k] == '\n' && s[k + 1] == '\n'));
            }
        }
    }
}

/// The complete blocks of `s` and what follows the last separator.
pub open spec fn split_blocks(s: Seq<char>) -> (Seq<Seq<char>>, Seq<char>)
    decreases s.len(),
{
    let p = blank_from(s, 0);
    if p < 0 {
        (seq![], s)
    } else {
        proof {
            lemma_blank_from_range(s, 0);
        }
        let r = split_blocks(s.skip(p + 2));
        (seq![s.take(p)] + r.0, r.1)
    }
}

/// The events of a list of blocks, skipping blocks without data.
pub open spec fn events_of(bs: Seq<Seq<char>>) -> Seq<EventFields>
    decreases bs.len(),
{
    if bs.len() == 0 {
        seq![]
    } else {
        match block_event(bs[0]) {
            Some(e) => seq![e] + events_of(bs.drop_first()),
            None => events_of(bs.drop_first()),
        }
    }
}

/// A list of events, by their fields.
pub open spec fn event_views(evs: Seq<SseEvent>) -> Seq<EventFields> {
    evs.map_values(|e: SseEvent| e@)
}

/// An item of a decoded stream: an event, or an error as its parts.
pub type OutputItem = Result<EventFields, (ErrorKind, Seq<char>)>;

/// Stream items, by their views.
pub open spec fn output_views(out: Seq<Result<SseEvent, HttpEgressError>>) -> Seq<OutputItem> {
    out.map_values(|r: Result<SseEvent, HttpEgressError>| match r {
        Ok(e) => Ok(e@),
        Err(e) => Err(e.view_parts()),
    })
}

/// Events as stream items.
pub open spec fn ok_outputs(es: Seq<EventFields>) -> Seq<OutputItem> {
    es.map_values(|e: EventFields| Ok(e))
}

/// The items that end a stream whose decoder holds `rest`: the event of
/// `rest` unless it is only white space.
pub open spec fn end_output(rest: Seq<char>) -> Seq<OutputItem> {
    if all_white_space(rest) {
        seq![]
    } else {
        match block_event(rest) {
            Some(e) => seq![Ok(e)],
            None => seq![],
        }
    }
}

/// Start of the first `\n\n` in `v` at or after `lo`, or `v.len()`.
fn find_blank(v: &Vec<char>, lo: usize) -> (r: usize)
    requires
        lo <= v.len(),
    ensures
        lo <= r <= v.len(),
        forall|t: int| lo <= t < r ==> !blank_at(v@, t),
        r < v.len() ==> blank_at(v@, r as int),
        r == v.len() ==> forall|t: int| lo <= t ==> !blank_at(v@, t),
{
    let mut i = lo;
    while i < v.len() && v.len() - i > 1
        invariant
            lo <= i <= v.len(),
            forall|t: int| lo <= t < i ==> !blank_at(v@, t),
        decreases v.len() - i,
    {
        if v[i] == '\n' && v[i + 1] == '\n' {
            return i;
        }
        i = i + 1;
    }
    v.len()
}

/// Decodes a `text/event-stream` feed that arrives in chunks: text is
/// buffered until a blank line completes a block, and each complete block
/// with data becomes an event.
#[derive(Debug)]
pub struct SseDecoder {
    pending: Vec<char>,
}

impl View for SseDecoder {
    type V = Seq<char>;

    closed spec fn view(&self) -> Seq<char> {
        self.pending@
    }
}

impl SseDecoder {
    /// A decoder with nothing buffered.
    pub fn new() -> (d: Self)
        ensures
            d@ == Seq::<char>::empty(),
    {
        SseDecoder { pending: Vec::new() }
    }

    /// Feeds decoded text; returns the events of the blocks it completes,
    /// in order, and keeps what follows the last blank line.
    pub fn push_text(&mut self, text: &str) -> (out: Vec<SseEvent>)
        ensures
            event_views(out@) == events_of(split_blocks(old(self)@ + text@).0),
            final(self)@ == split_blocks(old(self)@ + text@).1,
            forall|t: int| 0 <= t ==> !blank_at(final(self)@, t),
    {
        proof {
            law_rest_has_no_separator(old(self)@ + text@);
        }
        let extra = chars_of(text);
        let mut buf: Vec<char> = Vec::new();
        std::mem::swap(&mut buf, &mut self.pending);
        let ghost start = buf@;
        let mut k: usize = 0;
        while k < extra.len()
            invariant
                k <= extra.len(),
                buf@ == start + extra@.take(k as int),
            decreases extra.len() - k,
        {
            buf.push(extra[k]);
            k = k + 1;
            assert(start + extra@.take(k as int) =~= (start + extra@.take(k - 1)).push(extra@[k - 1]));
        }
        assert(extra@.take(k as int) =~= text@);
        let ghost whole = buf@;
        let mut out: Vec<SseEvent> = Vec::new();
        let mut pos: usize = 0;
        assert(whole.skip(0) =~= whole);
        assert(event_views(out@) =~= Seq::<EventFields>::empty());
        loop
            invariant
                pos <= buf.len(),
                buf@ == whole,
                whole == old(self)@ + text@,
                events_of(split_blocks(whole).0) == event_views(out@) + events_of(split_blocks(whole.skip(pos as int)).0),
                split_blocks(whole).1 == split_blocks(whole.skip(pos as int)).1,
            decreases buf.len() - pos,
        {
            let ghost t = whole.skip(pos as int);
            let p = find_blank(&buf, pos);
            proof {
                assert forall|x: int| 0 <= x < p - pos implies !blank_at(t, x) by {
                    assert(!blank_at(whole, pos + x));
                    if x + 1 < t.len() {
                        assert(t[x] == whole[pos + x] && t[x + 1] == whole[pos + x + 1]);
                    }
                }
                if p < buf.len() {
                    assert(t[p - pos] == whole[p as int] && t[p - pos + 1] == whole[p + 1]);
                } else {
                    assert(p - pos + 1 >= t.len());
                }
                lemma_blank_from(t, 0, p - pos);
            }
            if p == buf.len() {
                proof {
                    assert(split_blocks(t) == (Seq::<Seq<char>>::empty(), t));
                    assert(events_of(Seq::<Seq<char>>::empty()) =~= Seq::<EventFields>::empty());
                    assert(event_views(out@) + Seq::<EventFields>::empty() =~= event_views(out@));
                }
                let rest = buf.len();
                let mut tail: Vec<char> = Vec::new();
                let mut q = pos;
                while q < rest
                    invariant
                        pos <= q <= rest == buf.len(),
                        tail@ == buf@.subrange(pos as int, q as int),
                    decreases rest - q,
                {
                    tail.push(buf[q]);
                    q = q + 1;
                    assert(buf@.subrange(pos as int, q as int) =~= buf@.subrange(pos as int, q - 1).push(buf@[q - 1]));
                }
                assert(tail@ =~= t);
                self.pending = tail;
                return out;
            }
            let ev = parse_block_range(&buf, pos, p);
            let ghost before = event_views(out@);
            let ghost blk = whole.subrange(pos as int, p as int);
            let ghost after = whole.skip(p + 2);
            proof {
                assert(t.take(p - pos) =~= blk);
                assert(t.skip(p - pos + 2) =~= after);
                let r = split_blocks(after);
                assert(split_blocks(t) == (seq![blk] + r.0, r.1));
                assert((seq![blk] + r.0)[0] == blk);
                assert((seq![blk] + r.0).drop_first() =~= r.0);
            }
            match ev {
                Some(e) => {
                    out.push(e);
                    proof {
                        assert(event_views(out@) =~= before.push(e@));
                        assert(before + (seq![e@] + events_of(split_blocks(after).0)) =~= before.push(e@) + events_of(split_blocks(after).0));
                    }
                },
                None => {
                    assert(event_views(out@) =~= before);
                },
            }
            pos = p + 2;
        }
    }

    /// Feeds a chunk of bytes, decoded as UTF-8 with invalid sequences
    /// replaced; returns the events it completes.
    pub fn push_bytes(&mut self, chunk: &[u8]) -> (out: Vec<SseEvent>)
        ensures
            event_views(out@) == events_of(split_blocks(old(self)@ + utf8_lossy(chunk@)).0),
            final(self)@ == split_blocks(old(self)@ + utf8_lossy(chunk@)).1,
            valid_utf8(chunk@) ==> event_views(out@) == events_of(split_blocks(old(self)@ + decode_utf8(chunk@)).0),
            valid_utf8(chunk@) ==> final(self)@ == split_blocks(old(self)@ + decode_utf8(chunk@)).1,
    {
        let text = decode_utf8_lossy(chunk);
        self.push_text(text.as_str())
    }

    /// One item of a byte stream: the events a chunk completes, or, for a
    /// read error, that error as the stream's last item (nothing buffered
    /// changes).
    pub fn on_item(&mut self, item: Result<Vec<u8>, String>) -> (out: Vec<Result<SseEvent, HttpEgressError>>)
        ensures
            match item {
                Ok(chunk) => {
                    &&& output_views(out@) == ok_outputs(events_of(split_blocks(old(self)@ + utf8_lossy(chunk@)).0))
                    &&& final(self)@ == split_blocks(old(self)@ + utf8_lossy(chunk@)).1
                    &&& valid_utf8(chunk@) ==> output_views(out@) == ok_outputs(events_of(split_blocks(old(self)@ + decode_utf8(chunk@)).0))
                    &&& valid_utf8(chunk@) ==> final(self)@ == split_blocks(old(self)@ + decode_utf8(chunk@)).1
                },
                Err(m) => {
                    &&& output_views(out@) == seq![Err::<EventFields, (ErrorKind, Seq<char>)>((ErrorKind::Internal, m@))]
                    &&& final(self)@ == old(self)@
                },
            },
    {
        match item {
            Ok(chunk) => {
                let evs = self.push_bytes(chunk.as_slice());
                let mut out: Vec<Result<SseEvent, HttpEgressError>> = Vec::new();
                let mut i: usize = 0;
                let ghost ev_views = event_views(evs@);
                while i < evs.len()
                    invariant
                        i <= evs.len(),
                        ev_views == event_views(evs@),
                        output_views(out@) == ok_outputs(ev_views.take(i as int)),
                    decreases evs.len() - i,
                {
                    let ghost before = out@;
                    out.push(Ok(copy_event(&evs[i])));
                    assert(output_views(out@) =~= output_views(before).push(Ok(evs@[i as int]@)));
                    assert(ev_views.take(i + 1) =~= ev_views.take(i as int).push(ev_views[i as int]));
                    assert(ok_outputs(ev_views.take(i + 1)) =~= ok_outputs(ev_views.take(i as int)).push(Ok(ev_views[i as int])));
                    i = i + 1;
                }
                assert(ev_views.take(i as int) =~= ev_views);
                out
            },
            Err(m) => {
                let out = vec![Err(HttpEgressError::Internal(m))];
                assert(output_views(out@) =~= seq![Err::<EventFields, (ErrorKind, Seq<char>)>((ErrorKind::Internal, m@))]);
                out
            },
        }
    }

    /// The stream's last items once it has ended: the event of what is left,
    /// as `finish` gives it.
    pub fn on_end(&self) -> (out: Vec<Result<SseEvent, HttpEgressError>>)
        ensures
            output_views(out@) == end_output(self@),
    {
        let mut out: Vec<Result<SseEvent, HttpEgressError>> = Vec::new();
        match self.finish() {
            Some(ev) => {
                out.push(Ok(ev));
                assert(output_views(out@) =~= end_output(self@));
            },
            None => {
                assert(output_views(out@) =~= end_output(self@));
            },
        }
        out
    }

    /// The event of whatever is left once the feed has ended: none when the
    /// rest is only white space, else `block_event` of it.
    pub fn finish(&self) -> (r: Option<SseEvent>)
        ensures
            opt_event(r) == (if all_white_space(self@) { None } else { block_event(self@) }),
    {
        if blank(&self.pending) {
            None
        } else {
            assert(self.pending@.subrange(0, self.pending@.len() as int) == self.pending@);
            parse_block_range(&self.pending, 0, self.pending.len())
        }
    }
}

// ---------------------------------------------------------------------
// Laws of the streaming decoder.
// ---------------------------------------------------------------------

/// A separator found in `x` is still the first one once more text follows.
proof fn lemma_blank_from_append(x: Seq<char>, y: Seq<char>, k: int)
    requires
        k >= 0,
        blank_from(x, k) >= 0,
    ensures
        blank_from(x + y, k) == blank_from(x, k),
    decreases x.len() - k,
{
    assert((x + y)[k] == x[k]);
    assert((x + y)[k + 1] == x[k + 1]);
    if !(x[k] == '\n' && x[k + 1] == '\n') {
        lemma_blank_from_append(x, y, k + 1);
    }
}

/// The events of two lists of blocks are the events of each, in order.
pub proof fn lemma_events_of_append(a: Seq<Seq<char>>, b: Seq<Seq<char>>)
    ensures
        events_of(a + b) == events_of(a) + events_of(b),
    decreases a.len(),
{
    if a.len() == 0 {
        assert(a + b =~= b);
        assert(events_of(a) + events_of(b) =~= events_of(b));
    } else {
        assert((a + b)[0] == a[0]);
        assert((a + b).drop_first() =~= a.drop_first() + b);
        lemma_events_of_append(a.drop_first(), b);
        match block_event(a[0]) {
            Some(e) => {
                assert(seq![e] + (events_of(a.drop_first()) + events_of(b)) =~= (seq![e] + events_of(a.drop_first())) + events_of(b));
            },
            None => {},
        }
    }
}

/// Splitting `x + y` is splitting `x`, then splitting what `x` left over
/// followed by `y`.
pub proof fn lemma_split_blocks_append(x: Seq<char>, y: Seq<char>)
    ensures
        split_blocks(x + y).0 == split_blocks(x).0 + split_blocks(split_blocks(x).1 + y).0,
        split_blocks(x + y).1 == split_blocks(split_blocks(x).1 + y).1,
    decreases x.len(),
{
    let p = blank_from(x, 0);
    lemma_blank_from_range(x, 0);
    if p < 0 {
        assert(split_blocks(x).0 + split_blocks(x + y).0 =~= split_blocks(x + y).0) by {
            assert(split_blocks(x).0 =~= Seq::<Seq<char>>::empty());
        }
    } else {
        lemma_blank_from_append(x, y, 0);
        let xs = x.skip(p + 2);
        assert((x + y).take(p) =~= x.take(p));
        assert((x + y).skip(p + 2) =~= xs + y);
        lemma_split_blocks_append(xs, y);
        let r = split_blocks(split_blocks(xs).1 + y);
        assert(seq![x.take(p)] + (split_blocks(xs).0 + r.0) =~= (seq![x.take(p)] + split_blocks(xs).0) + r.0);
    }
}

/// Chunk boundaries do not matter: feeding `a` and then `b` to a decoder
/// holding `pending` yields, in order, the same events as feeding `a + b`
/// at once, and leaves the same text buffered.
pub proof fn law_feed_in_pieces(pending: Seq<char>, a: Seq<char>, b: Seq<char>)
    ensures
        events_of(split_blocks(pending + a).0) + events_of(split_blocks(split_blocks(pending + a).1 + b).0)
            == events_of(split_blocks(pending + a + b).0),
        split_blocks(split_blocks(pending + a).1 + b).1 == split_blocks(pending + a + b).1,
{
    lemma_split_blocks_append(pending + a, b);
    lemma_events_of_append(split_blocks(pending + a).0, split_blocks(split_blocks(pending + a).1 + b).0);
}

/// The text a decoder keeps never holds a complete block: it contains no
/// blank line.
pub proof fn law_rest_has_no_separator(s: Seq<char>)
    ensures
        forall|t: int| 0 <= t ==> !blank_at(split_blocks(s).1, t),
    decreases s.len(),
{
    let p = blank_from(s, 0);
    lemma_blank_from_range(s, 0);
    if p >= 0 {
        law_rest_has_no_separator(s.skip(p + 2));
        assert(split_blocks(s).1 == split_blocks(s.skip(p + 2)).1);
    } else {
        assert(split_blocks(s).1 == s);
    }
}

/// The blocks joined back together, each followed by its `\n\n`.
pub open spec fn join_blocks(bs: Seq<Seq<char>>) -> Seq<char>
    decreases bs.len(),
{
    if bs.len() == 0 {
        seq![]
    } else {
        bs[0] + seq!['\n', '\n'] + join_blocks(bs.drop_first())
    }
}

/// Splitting loses nothing: the blocks, their separators and the rest
/// give back the text.
pub proof fn law_split_blocks_lossless(s: Seq<char>)
    ensures
        join_blocks(split_blocks(s).0) + split_blocks(s).1 == s,
    decreases s.len(),
{
    let p = blank_from(s, 0);
    lemma_blank_from_range(s, 0);
    if p < 0 {
        assert(join_blocks(split_blocks(s).0) =~= Seq::<char>::empty());
        assert(Seq::<char>::empty() + s =~= s);
    } else {
        let xs = s.skip(p + 2);
        law_split_blocks_lossless(xs);
        let bs = split_blocks(s).0;
        assert(bs[0] == s.take(p));
        assert(bs.drop_first() =~= split_blocks(xs).0);
        let a = s.take(p) + seq!['\n', '\n'];
        let j = join_blocks(split_blocks(xs).0);
        let r = split_blocks(xs).1;
        assert(join_blocks(bs) == a + j);
        assert(j + r == xs);
        assert(a + (j + r) =~= s);
        assert(a + j + r =~= a + (j + r));
    }
}

// ---------------------------------------------------------------------
// Laws over whole streams.
// ---------------------------------------------------------------------

/// Texts joined in order.
pub open spec fn concat_texts(ts: Seq<Seq<char>>) -> Seq<char>
    decreases ts.len(),
{
    if ts.len() == 0 {
        seq![]
    } else {
        ts[0] + concat_texts(ts.drop_first())
    }
}

/// Events and kept text after `push_text` of each of `ts` in turn, on a
/// decoder holding `pending`.
pub open spec fn feed_texts(pending: Seq<char>, ts: Seq<Seq<char>>) -> (Seq<EventFields>, Seq<char>)
    decreases ts.len(),
{
    if ts.len() == 0 {
        (seq![], pending)
    } else {
        let s = split_blocks(pending + ts[0]);
        let rest = feed_texts(s.1, ts.drop_first());
        (events_of(s.0) + rest.0, rest.1)
    }
}

/// Chunk boundaries do not matter, for any number of chunks: feeding
/// `ts` one after another gives the events and kept text of feeding their
/// concatenation at once (for a decoder that holds no complete block, as
/// every decoder does).
pub proof fn law_feed_any_number_of_pieces(pending: Seq<char>, ts: Seq<Seq<char>>)
    requires
        forall|t: int| 0 <= t ==> !blank_at(pending, t),
    ensures
        feed_texts(pending, ts) == (
            events_of(split_blocks(pending + concat_texts(ts)).0),
            split_blocks(pending + concat_texts(ts)).1,
        ),
    decreases ts.len(),
{
    if ts.len() == 0 {
        assert(pending + concat_texts(ts) =~= pending);
        lemma_no_separator_split(pending);
        assert(events_of(Seq::<Seq<char>>::empty()) =~= Seq::<EventFields>::empty());
    } else {
        let t0 = ts[0];
        let c = concat_texts(ts.drop_first());
        let s = split_blocks(pending + t0);
        law_rest_has_no_separator(pending + t0);
        law_feed_any_number_of_pieces(s.1, ts.drop_first());
        law_feed_in_pieces(pending, t0, c);
        assert(pending + concat_texts(ts) =~= pending + t0 + c);
    }
}

/// Text without a separator splits into no blocks.
proof fn lemma_no_separator_split(s: Seq<char>)
    requires
        forall|t: int| 0 <= t ==> !blank_at(s, t),
    ensures
        split_blocks(s) == (Seq::<Seq<char>>::empty(), s),
{
    lemma_blank_from(s, 0, s.len() as int);
}

/// Events as stream items, over a concatenation.
proof fn lemma_ok_outputs_append(a: Seq<EventFields>, b: Seq<EventFields>)
    ensures
        ok_outputs(a + b) == ok_outputs(a) + ok_outputs(b),
{
    assert(ok_outputs(a + b) =~= ok_outputs(a) + ok_outputs(b));
}

/// What a stream of decoded chunks, or read errors, turns into on a
/// decoder holding `pending`: each chunk's events (`on_item`); a read
/// error ends the stream with that error; the end of the stream adds the
/// event of what is left (`on_end`).
pub open spec fn stream_output(pending: Seq<char>, items: Seq<Result<Seq<char>, Seq<char>>>) -> Seq<OutputItem>
    decreases items.len(),
{
    if items.len() == 0 {
        end_output(pending)
    } else {
        match items[0] {
            Err(m) => seq![Err((ErrorKind::Internal, m))],
            Ok(t) => {
                let s = split_blocks(pending + t);
                ok_outputs(events_of(s.0)) + stream_output(s.1, items.drop_first())
            },
        }
    }
}

/// Chunks, all read without error.
pub open spec fn all_read(ts: Seq<Seq<char>>) -> Seq<Result<Seq<char>, Seq<char>>> {
    ts.map_values(|t: Seq<char>| Ok::<Seq<char>, Seq<char>>(t))
}

/// What a whole stream holding `text` turns into: the events of its
/// complete blocks, then the event of the rest.
pub open spec fn whole_output(text: Seq<char>) -> Seq<OutputItem> {
    ok_outputs(events_of(split_blocks(text).0)) + end_output(split_blocks(text).1)
}

/// A stream read without error gives the same items however it is cut
/// into chunks: those of its whole text (for a decoder that holds no
/// complete block, as every decoder does).
pub proof fn law_stream_ignores_chunking(pending: Seq<char>, ts: Seq<Seq<char>>)
    requires
        forall|t: int| 0 <= t ==> !blank_at(pending, t),
    ensures
        stream_output(pending, all_read(ts)) == whole_output(pending + concat_texts(ts)),
    decreases ts.len(),
{
    if ts.len() == 0 {
        assert(pending + concat_texts(ts) =~= pending);
        lemma_no_separator_split(pending);
        assert(events_of(Seq::<Seq<char>>::empty()) =~= Seq::<EventFields>::empty());
        assert(ok_outputs(Seq::<EventFields>::empty()) + end_output(pending) =~= end_output(pending));
    } else {
        let t0 = ts[0];
        let rest = ts.drop_first();
        let c = concat_texts(rest);
        let s = split_blocks(pending + t0);
        assert(all_read(ts)[0] == Ok::<Seq<char>, Seq<char>>(t0));
        assert(all_read(ts).drop_first() =~= all_read(rest));
        law_rest_has_no_separator(pending + t0);
        law_stream_ignores_chunking(s.1, rest);
        law_feed_in_pieces(pending, t0, c);
        assert(pending + concat_texts(ts) =~= pending + t0 + c);
        let w = split_blocks(s.1 + c);
        lemma_ok_outputs_append(events_of(s.0), events_of(w.0));
        assert(ok_outputs(events_of(s.0)) + (ok_outputs(events_of(w.0)) + end_output(w.1))
            =~= (ok_outputs(events_of(s.0)) + ok_outputs(events_of(w.0))) + end_output(w.1));
    }
}

/// A read error ends the stream: it is the last item, and nothing after
/// it in the byte stream matters.
pub proof fn law_error_ends_stream(pending: Seq<char>, items: Seq<Result<Seq<char>, Seq<char>>>, k: int)
    requires
        0 <= k < items.len(),
        items[k] is Err,
        forall|j: int| 0 <= j < k ==> #[trigger] items[j] is Ok,
    ensures
        stream_output(pending, items) == stream_output(pending, items.take(k + 1)),
        stream_output(pending, items).len() > 0,
        stream_output(pending, items).last() == Err::<EventFields, (ErrorKind, Seq<char>)>((ErrorKind::Internal, items[k]->Err_0)),
    decreases k,
{
    if k == 0 {
        assert(items.take(1)[0] == items[0]);
    } else {
        assert(items[0] is Ok);
        match items[0] {
            Err(m) => {},
            Ok(t) => {
                let s = split_blocks(pending + t);
                let tail = items.drop_first();
                assert(tail[k - 1] == items[k]);
                assert forall|j: int| 0 <= j < k - 1 implies #[trigger] tail[j] is Ok by {
                    assert(tail[j] == items[j + 1]);
                }
                law_error_ends_stream(s.1, tail, k - 1);
                assert(items.take(k + 1)[0] == items[0]);
                assert(items.take(k + 1).drop_first() =~= tail.take(k));
                let a = ok_outputs(events_of(s.0));
                let b = stream_output(s.1, tail);
                assert((a + b).last() == b.last());
            },
        }
    }
}

/// Byte chunks joined in order.
pub open spec fn concat_bytes(bs: Seq<Seq<u8>>) -> Seq<u8>
    decreases bs.len(),
{
    if bs.len() == 0 {
        seq![]
    } else {
        bs[0] + concat_bytes(bs.drop_first())
    }
}

/// Encoding distributes over concatenation.
proof fn lemma_encode_concat(a: Seq<char>, b: Seq<char>)
    ensures
        encode_utf8(a + b) == encode_utf8(a) + encode_utf8(b),
    decreases a.len(),
{
    if a.len() == 0 {
        assert(a + b =~= b);
        assert(encode_utf8(a) + encode_utf8(b) =~= encode_utf8(b));
    } else {
        assert((a + b)[0] == a[0]);
        assert((a + b).drop_first() =~= a.drop_first() + b);
        lemma_encode_concat(a.drop_first(), b);
        assert(encode_scalar(a[0] as u32) + (encode_utf8(a.drop_first()) + encode_utf8(b))
            =~= encode_scalar(a[0] as u32) + encode_utf8(a.drop_first()) + encode_utf8(b));
    }
}

/// Two valid UTF-8 pieces decode, together, to their decodings joined.
pub proof fn lemma_decode_concat(a: Seq<u8>, b: Seq<u8>)
    requires
        valid_utf8(a),
        valid_utf8(b),
    ensures
        valid_utf8(a + b),
        decode_utf8(a + b) == decode_utf8(a) + decode_utf8(b),
{
    let da = decode_utf8(a);
    let db = decode_utf8(b);
    decode_utf8_encode_utf8(a);
    decode_utf8_encode_utf8(b);
    lemma_encode_concat(da, db);
    encode_utf8_valid_utf8(da + db);
    encode_utf8_decode_utf8(da + db);
}

/// Decodings of byte chunks.
pub open spec fn decoded_chunks(bs: Seq<Seq<u8>>) -> Seq<Seq<char>> {
    bs.map_values(|b: Seq<u8>| decode_utf8(b))
}

/// Byte chunks cut at character boundaries (each valid UTF-8) decode,
/// chunk by chunk, to the decoding of their concatenation; so the stream
/// they make gives the items of the whole text.
pub proof fn law_byte_chunks_at_char_boundaries(pending: Seq<char>, bs: Seq<Seq<u8>>)
    requires
        forall|i: int| 0 <= i < bs.len() ==> valid_utf8(#[trigger] bs[i]),
        forall|t: int| 0 <= t ==> !blank_at(pending, t),
    ensures
        valid_utf8(concat_bytes(bs)),
        concat_texts(decoded_chunks(bs)) == decode_utf8(concat_bytes(bs)),
        stream_output(pending, all_read(decoded_chunks(bs))) == whole_output(pending + decode_utf8(concat_bytes(bs))),
{
    lemma_decoded_concat(bs);
    law_stream_ignores_chunking(pending, decoded_chunks(bs));
}

proof fn lemma_decoded_concat(bs: Seq<Seq<u8>>)
    requires
        forall|i: int| 0 <= i < bs.len() ==> valid_utf8(#[trigger] bs[i]),
    ensures
        valid_utf8(concat_bytes(bs)),
        concat_texts(decoded_chunks(bs)) == decode_utf8(concat_bytes(bs)),
    decreases bs.len(),
{
    if bs.len() == 0 {
        assert(valid_utf8(Seq::<u8>::empty()));
        assert(decode_utf8(Seq::<u8>::empty()) =~= Seq::<char>::empty());
    } else {
        let rest = bs.drop_first();
        assert forall|i: int| 0 <= i < rest.len() implies valid_utf8(#[trigger] rest[i]) by {
            assert(rest[i] == bs[i + 1]);
        }
        lemma_decoded_concat(rest);
        assert(valid_utf8(bs[0]));
        lemma_decode_concat(bs[0], concat_bytes(rest));
        assert(decoded_chunks(bs)[0] == decode_utf8(bs[0]));
        assert(decoded_chunks(bs).drop_first() =~= decoded_chunks(rest));
    }
}

} // verus!
