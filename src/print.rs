use crate::text::{
    decode_utf8_lossy, decode_utf8_lossy_keep_bom, file_lines, split_lines, stdin_lines, views,
};
use vstd::prelude::*;

verus! {

/// The byte of the decimal digit `d`.
pub open spec fn digit_byte(d: nat) -> u8 {
    (48 + d) as u8
}

/// Decimal notation of `n`, without leading zeros.
pub open spec fn decimal(n: nat) -> Seq<u8>
    decreases n,
{
    if n < 10 {
        seq![digit_byte(n)]
    } else {
        decimal(n / 10).push(digit_byte(n % 10))
    }
}

/// What is emitted for `text` as line number `n`: the number and two spaces
/// when numbering, then the text and a newline.
pub open spec fn emitted_line(numbered: bool, n: nat, text: Seq<u8>) -> Seq<u8> {
    if numbered {
        decimal(n) + seq![32u8, 32u8] + text + seq![10u8]
    } else {
        text + seq![10u8]
    }
}

/// What is emitted for `lines` when `count` lines were emitted before them.
pub open spec fn emitted(numbered: bool, count: nat, lines: Seq<Seq<u8>>) -> Seq<u8>
    decreases lines.len(),
{
    if lines.len() == 0 {
        seq![]
    } else {
        emitted(numbered, count, lines.drop_last()) + emitted_line(
            numbered,
            count + lines.len(),
            lines.last(),
        )
    }
}

/// Turns lines into output, keeping a running line count across calls.
pub struct PrintManager {
    /// Whether each line is prefixed with its number.
    pub display_line_numbers: bool,
    /// Number of lines emitted so far.
    line_num: u128,
}

impl PrintManager {
    /// Number of lines emitted so far.
    pub closed spec fn count(&self) -> nat {
        self.line_num as nat
    }

    /// Whether lines are prefixed with their number.
    pub closed spec fn numbered(&self) -> bool {
        self.display_line_numbers
    }

    /// A manager that has emitted nothing and does not number lines.
    pub fn new() -> (r: Self)
        ensures
            r.count() == 0,
            !r.numbered(),
    {
        PrintManager { display_line_numbers: false, line_num: 0 }
    }

    /// A manager that has emitted nothing, numbering lines as `display_line_numbers` says.
    pub fn with_numbering(display_line_numbers: bool) -> (r: Self)
        ensures
            r.count() == 0,
            r.numbered() == display_line_numbers,
    {
        PrintManager { display_line_numbers, line_num: 0 }
    }

    /// Number of lines emitted so far.
    pub fn line_num(&self) -> (r: u128)
        ensures
            r == self.count(),
    {
        self.line_num
    }

    /// Appends `line` to `out` as the next line, numbered if the mode says so.
    pub fn write_line(&mut self, line: &[u8], out: &mut Vec<u8>)
        requires
            old(self).count() < u128::MAX,
        ensures
            final(self).numbered() == old(self).numbered(),
            final(self).count() == old(self).count() + 1,
            final(out)@ == old(out)@ + emitted_line(
                old(self).numbered(),
                final(self).count(),
                line@,
            ),
    {
        self.line_num = self.line_num + 1;
        if self.display_line_numbers {
            push_decimal(self.line_num, out);
            out.push(32u8);
            out.push(32u8);
        }
        let mut i: usize = 0;
        let ghost start = out@;
        while i < line.len()
            invariant
                i <= line@.len(),
                out@ == start + line@.take(i as int),
            decreases line@.len() - i,
        {
            out.push(line[i]);
            i = i + 1;
            assert(out@ =~= start + line@.take(i as int));
        }
        assert(line@.take(i as int) =~= line@);
        out.push(10u8);
        assert(final(out)@ =~= old(out)@ + emitted_line(
            self.display_line_numbers,
            self.count(),
            line@,
        ));
    }
}

impl Default for PrintManager {
    fn default() -> (r: Self)
        ensures
            r.count() == 0,
            !r.numbered(),
    {
        PrintManager::new()
    }
}

impl PrintManager {
    /// Appends each of `lines` to `out` in order, as the next lines.
    pub fn write_lines(&mut self, lines: &Vec<Vec<u8>>, out: &mut Vec<u8>)
        requires
            old(self).count() + lines@.len() <= u128::MAX,
        ensures
            final(self).numbered() == old(self).numbered(),
            final(self).count() == old(self).count() + lines@.len(),
            final(out)@ == old(out)@ + emitted(old(self).numbered(), old(self).count(), views(lines@)),
    {
        let ghost start = out@;
        let ghost count0 = self.count();
        let mut i: usize = 0;
        while i < lines.len()
            invariant
                i <= lines@.len(),
                self.numbered() == old(self).numbered(),
                count0 == old(self).count(),
                count0 + lines@.len() <= u128::MAX,
                self.count() == count0 + i,
                out@ == start + emitted(self.numbered(), count0, views(lines@).take(i as int)),
            decreases lines@.len() - i,
        {
            self.write_line(lines[i].as_slice(), out);
            i = i + 1;
            assert(views(lines@).take(i as int).drop_last() =~= views(lines@).take(i - 1));
        }
        assert(views(lines@).take(i as int) =~= views(lines@));
    }
}

/// Appends the lines of a file whose bytes are `contents` to `out`. Returns
/// false, emitting nothing, when the line count cannot take the file's lines.
pub fn handle_file(print_manager: &mut PrintManager, contents: &[u8], out: &mut Vec<u8>) -> (ok:
    bool)
    requires
        contents@.len() <= usize::MAX / 4,
    ensures
        final(print_manager).numbered() == old(print_manager).numbered(),
        ok == (old(print_manager).count() + file_lines(contents@).len() <= u128::MAX),
        ok ==> final(print_manager).count() == old(print_manager).count() + file_lines(
            contents@,
        ).len(),
        ok ==> final(out)@ == old(out)@ + emitted(
            old(print_manager).numbered(),
            old(print_manager).count(),
            file_lines(contents@),
        ),
        !ok ==> final(print_manager).count() == old(print_manager).count(),
        !ok ==> final(out)@ == old(out)@,
{
    let text = decode_utf8_lossy(contents);
    let lines = split_lines(text.as_slice());
    if lines.len() as u128 > u128::MAX - print_manager.line_num() {
        return false;
    }
    print_manager.write_lines(&lines, out);
    true
}

/// Handles one chunk read from standard input, as read up to and including a
/// newline: an empty chunk marks the end of the input. Otherwise the chunk is
/// decoded and its lines appended to `out`. Returns whether to read on: false
/// at the end of the input, and when the line count cannot take the chunk's
/// lines, in which case nothing is emitted.
pub fn handle_stdin(print_manager: &mut PrintManager, chunk: &[u8], out: &mut Vec<u8>) -> (more:
    bool)
    requires
        chunk@.len() <= usize::MAX / 4,
    ensures
        final(print_manager).numbered() == old(print_manager).numbered(),
        more == (chunk@.len() > 0 && old(print_manager).count() + stdin_lines(chunk@).len()
            <= u128::MAX),
        more ==> final(print_manager).count() == old(print_manager).count() + stdin_lines(
            chunk@,
        ).len(),
        more ==> final(out)@ == old(out)@ + emitted(
            old(print_manager).numbered(),
            old(print_manager).count(),
            stdin_lines(chunk@),
        ),
        !more ==> final(print_manager).count() == old(print_manager).count(),
        !more ==> final(out)@ == old(out)@,
{
    if chunk.len() == 0 {
        return false;
    }
    let text = decode_utf8_lossy_keep_bom(chunk);
    let lines = split_lines(text.as_slice());
    if lines.len() as u128 > u128::MAX - print_manager.line_num() {
        return false;
    }
    print_manager.write_lines(&lines, out);
    true
}

/// Appends the decimal notation of `n` to `out`.
fn push_decimal(n: u128, out: &mut Vec<u8>)
    ensures
        final(out)@ == old(out)@ + decimal(n as nat),
    decreases n,
{
    if n >= 10 {
        push_decimal(n / 10, out);
    }
    out.push((48 + n % 10) as u8);
    assert(final(out)@ =~= old(out)@ + decimal(n as nat));
}

} // verus!
