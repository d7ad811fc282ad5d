//! Text annotations: the stored form of a line's alignment, the grouping of
//! styled spans into lines, and the table of interned font names.
use vstd::prelude::*;
use vstd::string::*;
use crate::formats::str_eq;

verus! {

/// Horizontal alignment of a line of text.
#[derive(Debug, Clone, Copy, PartialEq, Eq, Structural)]
pub enum TextAlign {
    Left,
    Right,
    Center,
    Justified,
    End,
}

/// The byte that stores an alignment: centre 1, right 2, anything else 0.
pub open spec fn align_code(a: TextAlign) -> u8 {
    match a {
        TextAlign::Center => 1,
        TextAlign::Right => 2,
        _ => 0,
    }
}

/// The alignment a stored byte stands for: 1 centre, 2 right, anything else
/// left.
pub open spec fn align_of_code(v: u8) -> TextAlign {
    if v == 1 {
        TextAlign::Center
    } else if v == 2 {
        TextAlign::Right
    } else {
        TextAlign::Left
    }
}

/// The byte that stores `align`.
pub fn encode_align(align: TextAlign) -> (r: u8)
    ensures
        r == align_code(align),
{
    match align {
        TextAlign::Center => 1,
        TextAlign::Right => 2,
        _ => 0,
    }
}

/// The alignment stored as `val`.
pub fn decode_align(val: u8) -> (r: TextAlign)
    ensures
        r == align_of_code(val),
{
    if val == 1 {
        TextAlign::Center
    } else if val == 2 {
        TextAlign::Right
    } else {
        TextAlign::Left
    }
}

/// Left, centre and right alignment survive storing; justified and end
/// alignment come back as left.
pub proof fn lemma_align_round_trip(a: TextAlign)
    ensures
        (a == TextAlign::Left || a == TextAlign::Center || a == TextAlign::Right) ==> align_of_code(
            align_code(a),
        ) == a,
        (a == TextAlign::Justified || a == TextAlign::End) ==> align_of_code(align_code(a))
            == TextAlign::Left,
{
}

/// Every stored byte decodes to an alignment that stores as 0, 1 or 2, and
/// the bytes 0, 1 and 2 come back unchanged.
pub proof fn lemma_code_round_trip(v: u8)
    ensures
        align_code(align_of_code(v)) == (if v <= 2 { v } else { 0u8 }),
{
}

/// One line of a text annotation: its text, the indices of the spans that
/// make it up and its alignment (that of its first span that has one).
#[derive(Debug, Clone)]
pub struct SpanLine {
    pub text: String,
    pub spans: Vec<usize>,
    pub align: Option<u8>,
}

/// The lines that spans with texts `texts` and alignments `aligns` form: an
/// empty span starts a new line with its own alignment; another span is
/// appended to the last line, whose alignment it sets if it has none yet.
/// There is always a first line.
pub open spec fn span_lines(texts: Seq<Seq<char>>, aligns: Seq<Option<u8>>) -> Seq<
    (Seq<char>, Seq<usize>, Option<u8>),
>
    decreases texts.len(),
{
    if texts.len() == 0 {
        seq![(Seq::<char>::empty(), Seq::<usize>::empty(), None::<u8>)]
    } else {
        let n = (texts.len() - 1) as int;
        let prev = span_lines(texts.subrange(0, n), aligns);
        if texts[n].len() == 0 {
            prev.push((Seq::<char>::empty(), Seq::<usize>::empty(), aligns[n]))
        } else {
            let last = prev.last();
            let align = if last.2 is None {
                aligns[n]
            } else {
                last.2
            };
            prev.update(prev.len() - 1, (last.0 + texts[n], last.1.push(n as usize), align))
        }
    }
}

/// The texts of a list of strings.
pub open spec fn views_of(v: Seq<String>) -> Seq<Seq<char>> {
    v.map_values(|t: String| t@)
}

/// Whether `line` holds the text, span indices and alignment `l`.
pub open spec fn line_is(line: SpanLine, l: (Seq<char>, Seq<usize>, Option<u8>)) -> bool {
    &&& line.text@ == l.0
    &&& line.spans@ == l.1
    &&& line.align == l.2
}

/// There is always at least one line.
proof fn lemma_span_lines_nonempty(texts: Seq<Seq<char>>, aligns: Seq<Option<u8>>)
    ensures
        span_lines(texts, aligns).len() >= 1,
    decreases texts.len(),
{
    if texts.len() > 0 {
        lemma_span_lines_nonempty(texts.subrange(0, texts.len() - 1), aligns);
    }
}

/// Groups spans into lines; span `i` has text `texts[i]` and alignment
/// `aligns[i]`.
pub fn group_spans(texts: &Vec<String>, aligns: &Vec<Option<u8>>) -> (r: Vec<SpanLine>)
    requires
        texts.len() == aligns.len(),
    ensures
        r@.len() == span_lines(views_of(texts@), aligns@).len(),
        forall|i: int|
            0 <= i < r@.len() ==> line_is(#[trigger] r@[i], span_lines(views_of(texts@), aligns@)[i]),
{
    let ghost all = views_of(texts@);
    let mut lines: Vec<SpanLine> = Vec::new();
    lines.push(SpanLine { text: String::new(), spans: Vec::new(), align: None });
    let mut k: usize = 0;
    proof {
        assert(all.subrange(0, 0) =~= Seq::<Seq<char>>::empty());
    }
    while k < texts.len()
        invariant
            k <= texts.len(),
            texts.len() == aligns.len(),
            all == views_of(texts@),
            lines@.len() == span_lines(all.subrange(0, k as int), aligns@).len(),
            forall|i: int|
                0 <= i < lines@.len() ==> line_is(
                    #[trigger] lines@[i],
                    span_lines(all.subrange(0, k as int), aligns@)[i],
                ),
        decreases texts.len() - k,
    {
        let ghost before = span_lines(all.subrange(0, k as int), aligns@);
        proof {
            lemma_span_lines_nonempty(all.subrange(0, k as int), aligns@);
            assert(all.subrange(0, k + 1).subrange(0, k as int) =~= all.subrange(0, k as int));
            assert(all.subrange(0, k + 1)[k as int] == texts@[k as int]@);
        }
        let t: &String = &texts[k];
        if t.as_str().is_empty() {
            lines.push(SpanLine { text: String::new(), spans: Vec::new(), align: aligns[k] });
            proof {
                assert(texts@[k as int]@.len() == 0);
            }
        } else {
            let last_ix = lines.len() - 1;
            let mut cur = lines.remove(last_ix);
            cur.text.append(t.as_str());
            cur.spans.push(k);
            if cur.align.is_none() {
                cur.align = aligns[k];
            }
            lines.push(cur);
            proof {
                assert(texts@[k as int]@.len() != 0);
            }
        }
        proof {
            let after = span_lines(all.subrange(0, k + 1), aligns@);
            assert forall|i: int| 0 <= i < lines@.len() implies line_is(
                #[trigger] lines@[i],
                after[i],
            ) by {
                if i < before.len() - 1 {
                    assert(before[i] == after[i]);
                }
            }
        }
        k += 1;
    }
    proof {
        assert(all.subrange(0, texts.len() as int) =~= all);
    }
    lines
}

/// A table of strings kept for the life of the program, each stored once.
pub struct InternTable {
    entries: Vec<&'static str>,
}

impl InternTable {
    /// The strings in the table, in the order they were added.
    pub closed spec fn contents(&self) -> Seq<Seq<char>> {
        self.entries@.map_values(|e: &'static str| e@)
    }

    /// No string is stored twice.
    pub closed spec fn wf(&self) -> bool {
        forall|i: int, j: int|
            0 <= i < j < self.entries@.len() ==> self.entries@[i]@ != self.entries@[j]@
    }

    /// An empty table.
    pub fn new() -> (r: InternTable)
        ensures
            r.wf(),
            r.contents() == Seq::<Seq<char>>::empty(),
    {
        let r = InternTable { entries: Vec::new() };
        assert(r.contents() =~= Seq::<Seq<char>>::empty());
        r
    }

    /// The number of strings in the table.
    pub fn len(&self) -> (r: usize)
        ensures
            r == self.contents().len(),
    {
        self.entries.len()
    }
}

/// Makes `s` into an owned string that lives until the program ends.
#[verifier::external_body]
fn leak_string(s: String) -> (r: &'static str)
    ensures
        r@ == s@,
{
    s.leak()
}

/// A copy of `s` that lives as long as the program: the one stored in
/// `table` if the table holds `s` already, else a new one, which is added.
pub fn intern_str(table: &mut InternTable, s: &str) -> (r: &'static str)
    requires
        old(table).wf(),
    ensures
        final(table).wf(),
        r@ == s@,
        final(table).contents() == interned(old(table).contents(), s@),
{
    let mut i: usize = 0;
    while i < table.entries.len()
        invariant
            i <= table.entries.len(),
            table.entries@ == old(table).entries@,
            old(table).wf(),
            forall|j: int| 0 <= j < i ==> table.entries@[j]@ != s@,
        decreases table.entries.len() - i,
    {
        let e: &'static str = table.entries[i];
        if str_eq(e, s) {
            proof {
                assert(old(table).contents()[i as int] == s@);
            }
            return e;
        }
        i += 1;
    }
    proof {
        assert forall|j: int| 0 <= j < old(table).contents().len() implies old(
            table,
        ).contents()[j] != s@ by {}
    }
    let leaked = leak_string(String::from_str(s));
    table.entries.push(leaked);
    proof {
        assert(table.contents() =~= old(table).contents().push(s@));
    }
    leaked
}

/// The table's strings after `s` is interned: unchanged when it holds `s`
/// already, else with `s` added at the end.
pub open spec fn interned(c: Seq<Seq<char>>, s: Seq<char>) -> Seq<Seq<char>> {
    if c.contains(s) {
        c
    } else {
        c.push(s)
    }
}

/// Interning the same string twice changes the table no more than once.
pub proof fn lemma_intern_idempotent(c: Seq<Seq<char>>, s: Seq<char>)
    ensures
        interned(interned(c, s), s) == interned(c, s),
        interned(c, s).contains(s),
{
    if !c.contains(s) {
        assert(c.push(s)[c.len() as int] == s);
    }
}

} // verus!
