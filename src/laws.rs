use crate::print::{decimal, emitted, emitted_line};
use crate::text::{lemma_newline_index_at, lines_of, newline_index, strip_cr};
use crate::args::named_inputs;
use crate::input::is_stdin_arg;
use vstd::prelude::*;

verus! {

/// What is emitted for each source's lines in turn, the count running on
/// from one source to the next.
pub open spec fn emitted_sources(numbered: bool, count: nat, sources: Seq<Seq<Seq<u8>>>) -> Seq<
    u8,
>
    decreases sources.len(),
{
    if sources.len() == 0 {
        seq![]
    } else {
        emitted(numbered, count, sources[0]) + emitted_sources(
            numbered,
            count + sources[0].len(),
            sources.drop_first(),
        )
    }
}

/// A text without carriage returns.
pub open spec fn has_no_cr(text: Seq<u8>) -> bool {
    forall|i: int| 0 <= i < text.len() ==> text[i] != 13u8
}

/// `text` with its last line ended by a newline: unchanged when empty or
/// already ending in one, else with a newline added.
pub open spec fn line_terminated(text: Seq<u8>) -> Seq<u8> {
    if text.len() == 0 || text.last() == 10u8 {
        text
    } else {
        text.push(10u8)
    }
}

/// Emitting two runs of lines one after the other, the count running on,
/// gives what emitting them as one run gives.
pub proof fn lemma_emitted_concat(numbered: bool, count: nat, a: Seq<Seq<u8>>, b: Seq<Seq<u8>>)
    ensures
        emitted(numbered, count, a + b) == emitted(numbered, count, a) + emitted(
            numbered,
            count + a.len(),
            b,
        ),
    decreases b.len(),
{
    if b.len() == 0 {
        assert(a + b =~= a);
        assert(emitted(numbered, count, a) + seq![] =~= emitted(numbered, count, a));
    } else {
        assert((a + b).drop_last() =~= a + b.drop_last());
        lemma_emitted_concat(numbered, count, a, b.drop_last());
        assert(emitted(numbered, count, a + b) =~= emitted(numbered, count, a) + emitted(
            numbered,
            count + a.len(),
            b,
        ));
    }
}

/// The output of a single line.
pub proof fn lemma_emitted_one(numbered: bool, count: nat, line: Seq<u8>)
    ensures
        emitted(numbered, count, seq![line]) == emitted_line(numbered, count + 1, line),
{
    assert(seq![line].drop_last() =~= Seq::<Seq<u8>>::empty());
    assert(emitted(numbered, count, Seq::<Seq<u8>>::empty()) == Seq::<u8>::empty());
    assert(seq![] + emitted_line(numbered, count + 1, line) =~= emitted_line(
        numbered,
        count + 1,
        line,
    ));
}

/// With numbering, the k-th line emitted from a fresh count is prefixed by
/// `k` and two spaces, whatever came before and after it.
pub proof fn lemma_kth_line_numbered(lines: Seq<Seq<u8>>, k: nat)
    requires
        1 <= k <= lines.len(),
    ensures
        emitted(true, 0, lines) == emitted(true, 0, lines.take(k - 1)) + decimal(k) + seq![
            32u8,
            32u8,
        ] + lines[k - 1] + seq![10u8] + emitted(true, k, lines.skip(k as int)),
{
    let before = lines.take(k - 1);
    let after = lines.skip(k as int);
    assert(lines =~= before + seq![lines[k - 1]] + after);
    lemma_emitted_concat(true, 0, before + seq![lines[k - 1]], after);
    lemma_emitted_concat(true, 0, before, seq![lines[k - 1]]);
    lemma_emitted_one(true, (k - 1) as nat, lines[k - 1]);
    assert(emitted(true, 0, lines) =~= emitted(true, 0, before) + decimal(k) + seq![32u8, 32u8]
        + lines[k - 1] + seq![10u8] + emitted(true, k, after));
}

/// Sources emitted in the order given produce their lines in that order,
/// numbered as one run: the numbering does not restart per source.
pub proof fn lemma_sources_in_order(numbered: bool, count: nat, sources: Seq<Seq<Seq<u8>>>)
    ensures
        emitted_sources(numbered, count, sources) == emitted(numbered, count, sources.flatten()),
    decreases sources.len(),
{
    if sources.len() > 0 {
        lemma_sources_in_order(numbered, count + sources[0].len(), sources.drop_first());
        lemma_emitted_concat(numbered, count, sources[0], sources.drop_first().flatten());
    } else {
        assert(emitted(numbered, count, Seq::<Seq<u8>>::empty()) == Seq::<u8>::empty());
    }
}

proof fn lemma_no_newline_before_index(s: Seq<u8>, i: int)
    requires
        0 <= i < newline_index(s),
    ensures
        s[i] != 10u8,
    decreases s.len(),
{
    lemma_newline_index_at(s);
    if i > 0 {
        lemma_no_newline_before_index(s.drop_first(), i - 1);
    }
}

/// Without numbering, the lines of a text without carriage returns are
/// emitted as the text itself, its last line ended by a newline.
pub proof fn lemma_plain_lines_round_trip(count: nat, text: Seq<u8>)
    requires
        has_no_cr(text),
    ensures
        emitted(false, count, lines_of(text)) == line_terminated(text),
    decreases text.len(),
{
    if text.len() == 0 {
        assert(emitted(false, count, Seq::<Seq<u8>>::empty()) == Seq::<u8>::empty());
        assert(text =~= Seq::<u8>::empty());
    } else {
        lemma_newline_index_at(text);
        let e = newline_index(text) as int;
        if e == text.len() {
            if text.last() == 10u8 {
                lemma_no_newline_before_index(text, text.len() - 1);
            }
            assert(lines_of(text) == seq![text]);
            lemma_emitted_one(false, count, text);
        } else {
            let first = text.take(e);
            let rest = text.skip(e + 1);
            assert(strip_cr(first) == first) by {
                if first.len() > 0 {
                    assert(first.last() == text[e - 1]);
                }
            }
            assert(rest.len() > 0 ==> rest.last() == text.last());
            lemma_plain_lines_round_trip(count + 1, rest);
            assert(lines_of(text) == seq![first] + lines_of(rest));
            lemma_emitted_concat(false, count, seq![first], lines_of(rest));
            lemma_emitted_one(false, count, first);
            assert(text =~= first + seq![10u8] + rest);
            if rest.len() == 0 {
                assert(line_terminated(rest) =~= rest);
                assert(line_terminated(text) =~= first + seq![10u8] + line_terminated(rest));
            } else {
                assert(line_terminated(text) =~= first + seq![10u8] + line_terminated(rest));
            }
        }
    }
}

/// Concatenating texts without carriage returns, without numbering, outputs
/// the texts one after the other, each with its last line ended by a newline.
/// (`read_file` hands back the bytes of a UTF-8 file without byte order mark
/// unchanged.)
pub proof fn lemma_plain_files_concatenate(count: nat, texts: Seq<Seq<u8>>)
    requires
        forall|i: int| 0 <= i < texts.len() ==> has_no_cr(#[trigger] texts[i]),
    ensures
        emitted_sources(false, count, texts.map_values(|t: Seq<u8>| lines_of(t)))
            == texts.map_values(|t: Seq<u8>| line_terminated(t)).flatten(),
    decreases texts.len(),
{
    let sources = texts.map_values(|t: Seq<u8>| lines_of(t));
    let outs = texts.map_values(|t: Seq<u8>| line_terminated(t));
    if texts.len() == 0 {
        assert(sources.len() == 0);
        assert(outs.len() == 0);
    } else {
        assert(has_no_cr(texts[0]));
        lemma_plain_lines_round_trip(count, texts[0]);
        assert(sources.drop_first() =~= texts.drop_first().map_values(|t: Seq<u8>| lines_of(t)));
        assert(outs.drop_first() =~= texts.drop_first().map_values(
            |t: Seq<u8>| line_terminated(t),
        ));
        lemma_plain_files_concatenate(count + sources[0].len(), texts.drop_first());
    }
}

/// With no arguments, or an empty list, the inputs are those of a lone `-`:
/// standard input, once.
pub proof fn lemma_no_arguments_reads_stdin()
    ensures
        named_inputs(None) == named_inputs(Some(seq![seq!['-']])),
        named_inputs(Some(Seq::<Seq<char>>::empty())) == named_inputs(Some(seq![seq!['-']])),
        named_inputs(None).len() == 1,
        is_stdin_arg(named_inputs(None)[0]),
{
}

} // verus!
