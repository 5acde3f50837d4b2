use encoding_rs::UTF_8;
use vstd::prelude::*;
use vstd::utf8::valid_utf8;

verus! {

/// The UTF-8 text that `bytes` decode to, each malformed sequence giving
/// U+FFFD; a byte order mark is decoded like any other character.
pub uninterp spec fn utf8_lossy(bytes: Seq<u8>) -> Seq<u8>;

/// Whether `bytes` start with the UTF-8 byte order mark.
pub open spec fn starts_with_bom(bytes: Seq<u8>) -> bool {
    bytes.len() >= 3 && bytes[0] == 0xEFu8 && bytes[1] == 0xBBu8 && bytes[2] == 0xBFu8
}

/// `bytes` without a leading UTF-8 byte order mark.
pub open spec fn strip_bom(bytes: Seq<u8>) -> Seq<u8> {
    if starts_with_bom(bytes) {
        bytes.skip(3)
    } else {
        bytes
    }
}

/// Relies on encoding_rs's `Encoding::decode_without_bom_handling` on `UTF_8`:
/// it decodes the whole of `bytes` as UTF-8, replacing malformed sequences
/// instead of failing, and borrows the input unchanged when it is valid UTF-8.
/// Its buffer size arithmetic cannot overflow for inputs under a quarter of
/// the address space.
#[verifier::external_body]
pub(crate) fn decode_utf8_lossy_keep_bom(bytes: &[u8]) -> (r: Vec<u8>)
    requires
        bytes@.len() <= usize::MAX / 4,
    ensures
        r@ == utf8_lossy(bytes@),
        bytes@.len() == 0 ==> r@.len() == 0,
        valid_utf8(bytes@) ==> r@ == bytes@,
{
    UTF_8.decode_without_bom_handling(bytes).0.into_owned().into_bytes()
}

/// Relies on encoding_rs's `Encoding::decode_with_bom_removal` on `UTF_8`: it
/// drops a leading UTF-8 byte order mark, then decodes the rest as
/// `decode_without_bom_handling` does.
#[verifier::external_body]
pub(crate) fn decode_utf8_lossy(bytes: &[u8]) -> (r: Vec<u8>)
    requires
        bytes@.len() <= usize::MAX / 4,
    ensures
        r@ == utf8_lossy(strip_bom(bytes@)),
        strip_bom(bytes@).len() == 0 ==> r@.len() == 0,
        valid_utf8(strip_bom(bytes@)) ==> r@ == strip_bom(bytes@),
{
    UTF_8.decode_with_bom_removal(bytes).0.into_owned().into_bytes()
}

/// The lines of a file whose bytes are `contents`.
pub open spec fn file_lines(contents: Seq<u8>) -> Seq<Seq<u8>> {
    lines_of(utf8_lossy(strip_bom(contents)))
}

/// The lines of a chunk of standard input.
pub open spec fn stdin_lines(chunk: Seq<u8>) -> Seq<Seq<u8>> {
    lines_of(utf8_lossy(chunk))
}

/// Index of the first newline byte in `s`, or its length if there is none.
pub open spec fn newline_index(s: Seq<u8>) -> nat
    decreases s.len(),
{
    if s.len() == 0 {
        0
    } else if s[0] == 10u8 {
        0
    } else {
        1 + newline_index(s.drop_first())
    }
}

/// `line` without one trailing carriage return.
pub open spec fn strip_cr(line: Seq<u8>) -> Seq<u8> {
    if line.len() > 0 && line.last() == 13u8 {
        line.drop_last()
    } else {
        line
    }
}

/// The lines of `s`: split at each newline, a carriage return right before a
/// newline dropped with it, and a final newline ending the last line rather
/// than starting an empty one.
pub open spec fn lines_of(s: Seq<u8>) -> Seq<Seq<u8>>
    decreases s.len(),
{
    if s.len() == 0 {
        seq![]
    } else {
        let e = newline_index(s) as int;
        if e < s.len() {
            seq![strip_cr(s.take(e))] + lines_of(s.skip(e + 1))
        } else {
            seq![s]
        }
    }
}

/// The views of a list of byte vectors.
pub open spec fn views(v: Seq<Vec<u8>>) -> Seq<Seq<u8>> {
    v.map_values(|l: Vec<u8>| l@)
}

pub(crate) proof fn lemma_newline_index_at(s: Seq<u8>)
    ensures
        newline_index(s) <= s.len(),
        newline_index(s) < s.len() ==> s[newline_index(s) as int] == 10u8,
    decreases s.len(),
{
    if s.len() > 0 && s[0] != 10u8 {
        lemma_newline_index_at(s.drop_first());
    }
}

/// Copies `s[from..to]`, leaving out one carriage return at its end when
/// `strip` is set.
fn copy_range(s: &[u8], from: usize, to: usize, strip: bool) -> (r: Vec<u8>)
    requires
        from <= to <= s@.len(),
    ensures
        strip ==> r@ == strip_cr(s@.subrange(from as int, to as int)),
        !strip ==> r@ == s@.subrange(from as int, to as int),
{
    let mut end = to;
    if strip && from < to && s[to - 1] == 13u8 {
        end = to - 1;
    }
    let mut r: Vec<u8> = Vec::new();
    let mut i = from;
    while i < end
        invariant
            from <= i <= end <= to <= s@.len(),
            r@ == s@.subrange(from as int, i as int),
        decreases end - i,
    {
        r.push(s[i]);
        i = i + 1;
        assert(r@ =~= s@.subrange(from as int, i as int));
    }
    assert(strip ==> r@ =~= strip_cr(s@.subrange(from as int, to as int)));
    r
}

/// Splits `s` into its lines, without their terminators.
pub fn split_lines(s: &[u8]) -> (r: Vec<Vec<u8>>)
    ensures
        views(r@) == lines_of(s@),
{
    let mut lines: Vec<Vec<u8>> = Vec::new();
    let mut start: usize = 0;
    assert(s@.skip(0) =~= s@);
    assert(views(lines@) + lines_of(s@) =~= lines_of(s@));
    while start < s.len()
        invariant
            start <= s@.len(),
            lines_of(s@) == views(lines@) + lines_of(s@.skip(start as int)),
        decreases s@.len() - start,
    {
        let ghost rest = s@.skip(start as int);
        let ghost prev = lines@;
        let mut e = start;
        while e < s.len() && s[e] != 10u8
            invariant
                start <= e <= s@.len(),
                rest == s@.skip(start as int),
                newline_index(rest) == (e - start) + newline_index(s@.skip(e as int)),
            decreases s@.len() - e,
        {
            assert(s@.skip(e as int).drop_first() =~= s@.skip(e + 1));
            e = e + 1;
        }
        proof {
            lemma_newline_index_at(rest);
        }
        if e < s.len() {
            let line = copy_range(s, start, e, true);
            assert(rest.take(e - start) =~= s@.subrange(start as int, e as int));
            assert(rest.skip(e - start + 1) =~= s@.skip(e + 1));
            lines.push(line);
            assert(views(lines@) =~= views(prev).push(line@));
            start = e + 1;
        } else {
            assert(s@.skip(e as int).len() == 0);
            let line = copy_range(s, start, e, false);
            assert(rest =~= s@.subrange(start as int, e as int));
            lines.push(line);
            assert(views(lines@) =~= views(prev).push(line@));
            start = e;
            assert(lines_of(s@.skip(start as int)) =~= seq![]);
        }
    }
    assert(lines_of(s@.skip(start as int)) =~= seq![]);
    assert(views(lines@) + seq![] =~= views(lines@));
    lines
}

/// The text of a file whose bytes are `contents`, decoded as UTF-8 with each
/// malformed sequence replaced by U+FFFD and a leading byte order mark dropped.
pub fn read_file(contents: &[u8]) -> (r: Vec<u8>)
    requires
        contents@.len() <= usize::MAX / 4,
    ensures
        r@ == utf8_lossy(strip_bom(contents@)),
        valid_utf8(contents@) && !starts_with_bom(contents@) ==> r@ == contents@,
{
    decode_utf8_lossy(contents)
}

} // verus!
