//! Helpers around command execution results and text encoding.
//!
//! Running a command is host work; the outcome travels through
//! `CommandResult`, and `split_by_newline` breaks captured output into
//! lines exactly as `str::lines` does: split at `\n`, with a `\r`
//! immediately before the `\n` stripped, and no empty trailing line.

use vstd::prelude::*;

verus! {

/// The captured outcome of one executed command.
pub struct CommandResult {
    pub success: bool,
    pub stdout: String,
    pub stderr: String,
}

impl CommandResult {
    /// Bundle a command's success flag and captured output streams.
    pub fn new(success: bool, stdout: String, stderr: String) -> (r: CommandResult)
        ensures
            r.success == success,
            r.stdout@ == stdout@,
            r.stderr@ == stderr@,
    {
        CommandResult { success, stdout, stderr }
    }

    /// Reset the result: not successful, with both streams empty.
    pub fn clear(&mut self)
        ensures
            !final(self).success,
            final(self).stdout@ == Seq::<char>::empty(),
            final(self).stderr@ == Seq::<char>::empty(),
    {
        self.success = false;
        self.stdout = String::new();
        self.stderr = String::new();
    }
}

/// The index of the first `\n` in `s`, or `s.len()` if there is none.
pub open spec fn first_newline(s: Seq<char>) -> nat
    decreases s.len(),
{
    if s.len() == 0 {
        0
    } else if s[0] == '\n' {
        0
    } else {
        1 + first_newline(s.drop_first())
    }
}

proof fn lemma_first_newline(s: Seq<char>)
    ensures
        0 <= first_newline(s) <= s.len(),
        forall|m: int| 0 <= m < first_newline(s) ==> s[m] != '\n',
        first_newline(s) < s.len() ==> s[first_newline(s) as int] == '\n',
    decreases s.len(),
{
    if s.len() == 0 {
    } else if s[0] == '\n' {
    } else {
        let t = s.drop_first();
        lemma_first_newline(t);
        assert(forall|m: int| 1 <= m < first_newline(s) ==> s[m] == t[m - 1] && t[m - 1] != '\n');
    }
}

/// A line with one carriage return stripped from its end, if it has one.
pub open spec fn strip_cr(line: Seq<char>) -> Seq<char> {
    if line.len() >= 1 && line.last() == '\r' {
        line.drop_last()
    } else {
        line
    }
}

/// What `str::lines` yields for `s`, as a sequence of lines.
pub open spec fn spec_lines(s: Seq<char>) -> Seq<Seq<char>>
    decreases s.len(),
{
    if s.len() == 0 {
        Seq::empty()
    } else {
        let k = first_newline(s);
        if k >= s.len() {
            seq![s]
        } else {
            seq![strip_cr(s.take(k as int))] + spec_lines(s.skip(k as int + 1))
        }
    }
}

/// Split text into its lines: at every `\n`, stripping a `\r` that stands
/// right before the `\n`, and with no empty line after a final `\n`.
pub fn split_by_newline(text: &str) -> (r: Vec<String>)
    ensures
        r.deep_view() == spec_lines(text@),
{
    let mut out: Vec<String> = Vec::new();
    let n = text.unicode_len();
    let mut pos: usize = 0;

    proof {
        lemma_first_newline(text@);
        assert(text@.skip(0) =~= text@);
        assert(out.deep_view() + spec_lines(text@) =~= spec_lines(text@));
    }
    loop
        invariant
            pos <= n,
            n == text@.len(),
            spec_lines(text@) == out.deep_view() + spec_lines(text@.skip(pos as int)),
        ensures
            pos == n,
        decreases n - pos,
    {
        if pos >= n {
            break;
        }
        // scan for the next newline at or after pos
        let mut j: usize = pos;
        loop
            invariant
                pos <= j <= n,
                n == text@.len(),
                forall|m: int| pos <= m < j ==> text@[m] != '\n',
            ensures
                pos <= j <= n,
                forall|m: int| pos <= m < j ==> text@[m] != '\n',
                j < n ==> text@[j as int] == '\n',
            decreases n - j,
        {
            if j >= n {
                break;
            }
            if text.get_char(j) == '\n' {
                break;
            }
            j = j + 1;
        }

        let ghost rest = text@.skip(pos as int);
        proof {
            lemma_first_newline(rest);
            assert(forall|m: int| 0 <= m < j - pos ==> rest[m] == text@[m + pos] && text@[m + pos] != '\n');
            if j < n {
                assert(rest[j - pos] == '\n');
            }
            assert(first_newline(rest) == j - pos);
        }

        let ghost old_dv = out.deep_view();
        if j >= n {
            // final line without a terminating newline: kept as it stands
            let piece = text.substring_char(pos, n);
            let line = piece.to_owned();
            out.push(line);
            pos = n;
            proof {
                assert(spec_lines(rest) == seq![rest]);
                assert(line@ =~= rest);
                assert(out.deep_view() =~= old_dv.push(line@));
                assert(out.deep_view() + spec_lines(text@.skip(pos as int))
                    =~= old_dv + spec_lines(rest));
            }
        } else {
            let end = if j > pos && text.get_char(j - 1) == '\r' {
                j - 1
            } else {
                j
            };
            let piece = text.substring_char(pos, end);
            let line = piece.to_owned();
            out.push(line);
            pos = j + 1;
            proof {
                let k = first_newline(rest) as int;
                assert(spec_lines(rest) == seq![strip_cr(rest.take(k))] + spec_lines(rest.skip(k + 1)));
                assert(rest.take(k) =~= text@.subrange(pos as int - 1 - k, pos as int - 1));
                assert(strip_cr(rest.take(k)) =~= line@);
                assert(rest.skip(k + 1) =~= text@.skip(pos as int));
                assert(out.deep_view() =~= old_dv.push(line@));
                assert(out.deep_view() + spec_lines(text@.skip(pos as int))
                    =~= old_dv + spec_lines(rest));
            }
        }
    }
    proof {
        assert(spec_lines(text@.skip(n as int)) =~= Seq::<Seq<char>>::empty());
        assert(out.deep_view() + Seq::<Seq<char>>::empty() =~= out.deep_view());
    }
    out
}

/// What the GBK encoder produces for a string's characters.
pub uninterp spec fn gbk_bytes_of(s: Seq<char>) -> Seq<u8>;

/// Relies on encoding_rs's `Encoding::encode` with the GBK encoding: the
/// produced byte sequence depends on the input characters alone
/// (unmappable characters become numeric character references).
#[verifier::external_body]
pub fn utf_8_str_to_gbk_bytes(input: &str) -> (r: Vec<u8>)
    ensures
        r@ == gbk_bytes_of(input@),
{
    let (encoded, _, _) = encoding_rs::GBK.encode(input);
    encoded.into_owned()
}

} // verus!
