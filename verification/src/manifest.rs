use vstd::prelude::*;
use vstd::seq_lib::*;
use vstd::string::*;

use crate::error::Error;
use crate::text::{
    find_char, find_char_at, lemma_find_char, lemma_skip_non_spaces, lemma_skip_spaces,
    skip_non_spaces, skip_non_spaces_at, skip_spaces, skip_spaces_at,
};

verus! {

broadcast use Seq::filter_distributes_over_add;

/// One build descriptor read from a manifest line: the opaque version label
/// and the reference (checksum) token that stands beside it. Descriptors keep
/// the order of the manifest text.
#[derive(Debug)]
pub struct ManifestEntry {
    pub identifier: String,
    pub reference: String,
}

/// Ghost image of a `ManifestEntry`: both fields as character sequences.
pub struct ManifestEntryModel {
    pub identifier: Seq<char>,
    pub reference: Seq<char>,
}

impl View for ManifestEntry {
    type V = ManifestEntryModel;

    open spec fn view(&self) -> ManifestEntryModel {
        ManifestEntryModel { identifier: self.identifier@, reference: self.reference@ }
    }
}

/// A line's content once its terminator is gone: a line closed by a line
/// feed also sheds one carriage return standing directly before it, so a
/// CRLF line ending reads the same as a bare LF one.
pub open spec fn strip_cr(line: Seq<char>) -> Seq<char> {
    if line.len() > 0 && line.last() == '\r' {
        line.drop_last()
    } else {
        line
    }
}

/// The lines of `s` from position `from` on, split on line feeds, each
/// shedding one carriage return before its line feed. A final line feed
/// closes the last line; it does not open an empty one after it. A final
/// line left open (no line feed) keeps a trailing carriage return, since
/// nothing marks it as a line ending.
pub open spec fn lines_from(s: Seq<char>, from: int) -> Seq<Seq<char>>
    decreases s.len() - from
        when 0 <= from <= s.len()
        via lines_from_dec
{
    if from >= s.len() {
        Seq::empty()
    } else {
        let j = find_char(s, '\n', from);
        if j == s.len() {
            seq![s.subrange(from, s.len() as int)]
        } else {
            seq![strip_cr(s.subrange(from, j))] + lines_from(s, j + 1)
        }
    }
}

#[via_fn]
proof fn lines_from_dec(s: Seq<char>, from: int) {
    lemma_find_char(s, '\n', from);
}

/// All lines of a manifest body.
pub open spec fn manifest_lines(s: Seq<char>) -> Seq<Seq<char>> {
    lines_from(s, 0)
}

/// The non-blank lines among `lines`, in order.
pub open spec fn data_lines_of(lines: Seq<Seq<char>>) -> Seq<Seq<char>> {
    lines.filter(|l: Seq<char>| l.len() > 0)
}

/// The non-blank lines of a manifest body, in order. Only these carry build
/// descriptors; blank lines are skipped.
pub open spec fn data_lines(s: Seq<char>) -> Seq<Seq<char>> {
    data_lines_of(manifest_lines(s))
}

/// Start of the first whitespace-delimited field of a line.
pub open spec fn first_token_start(line: Seq<char>) -> int {
    skip_spaces(line, 0)
}

/// End (exclusive) of the first whitespace-delimited field of a line.
pub open spec fn first_token_end(line: Seq<char>) -> int {
    skip_non_spaces(line, first_token_start(line))
}

/// Start of the second whitespace-delimited field of a line.
pub open spec fn second_token_start(line: Seq<char>) -> int {
    skip_spaces(line, first_token_end(line))
}

/// End (exclusive) of the second whitespace-delimited field of a line.
pub open spec fn second_token_end(line: Seq<char>) -> int {
    skip_non_spaces(line, second_token_start(line))
}

/// A manifest line is well formed when it holds at least two
/// whitespace-delimited fields.
pub open spec fn line_well_formed(line: Seq<char>) -> bool {
    second_token_start(line) < line.len()
}

/// The first whitespace-delimited field of a line.
pub open spec fn first_token(line: Seq<char>) -> Seq<char> {
    line.subrange(first_token_start(line), first_token_end(line))
}

/// The second whitespace-delimited field of a line.
pub open spec fn second_token(line: Seq<char>) -> Seq<char> {
    line.subrange(second_token_start(line), second_token_end(line))
}

/// The descriptor `e` carries exactly the first two whitespace-delimited
/// fields of `line`.
pub open spec fn entry_of_line(e: ManifestEntryModel, line: Seq<char>) -> bool {
    e.identifier == first_token(line) && e.reference == second_token(line)
}

/// Every non-blank line of the manifest body holds at least two fields.
pub open spec fn manifest_well_formed(s: Seq<char>) -> bool {
    forall|i: int|
        0 <= i < data_lines(s).len() ==> line_well_formed(#[trigger] data_lines(s)[i])
}

/// Filtering for non-blank lines commutes with appending one line.
proof fn lemma_data_lines_push(lines: Seq<Seq<char>>, l: Seq<char>)
    ensures
        l.len() > 0 ==> data_lines_of(lines.push(l)) == data_lines_of(lines).push(l),
        l.len() == 0 ==> data_lines_of(lines.push(l)) == data_lines_of(lines),
{
    reveal(Seq::filter);
    assert(lines.push(l).drop_last() =~= lines);
    assert(lines.push(l).last() == l);
}

/// Parse one non-blank manifest line into its two leading fields.
fn parse_line(line: &str) -> (r: Result<ManifestEntry, Error>)
    ensures
        match r {
            Ok(e) => line_well_formed(line@) && entry_of_line(e@, line@),
            Err(e) => e == Error::ManifestParse && !line_well_formed(line@),
        },
{
    let n = line.unicode_len();
    proof {
        lemma_skip_spaces(line@, 0);
    }
    let t1s = skip_spaces_at(line, 0);
    proof {
        lemma_skip_non_spaces(line@, t1s as int);
    }
    let t1e = skip_non_spaces_at(line, t1s);
    proof {
        lemma_skip_spaces(line@, t1e as int);
    }
    let t2s = skip_spaces_at(line, t1e);
    if t2s == n {
        return Err(Error::ManifestParse);
    }
    proof {
        lemma_skip_non_spaces(line@, t2s as int);
    }
    let t2e = skip_non_spaces_at(line, t2s);
    let identifier = line.substring_char(t1s, t1e);
    let reference = line.substring_char(t2s, t2e);
    Ok(ManifestEntry {
        identifier: String::from_str(identifier),
        reference: String::from_str(reference),
    })
}

/// Parse a whole manifest body into ordered build descriptors.
///
/// Lines are split on line feeds, a CRLF ending counting as one; blank lines
/// are skipped; every other line must hold at least two whitespace-delimited
/// fields, of which the first two become the descriptor. One malformed line
/// fails the whole listing: no partial result is returned.
pub fn parse_manifest(body: &str) -> (r: Result<Vec<ManifestEntry>, Error>)
    ensures
        match r {
            Ok(entries) => {
                &&& manifest_well_formed(body@)
                &&& entries@.len() == data_lines(body@).len()
                &&& forall|i: int|
                    0 <= i < entries@.len() ==> entry_of_line(
                        #[trigger] entries@[i]@,
                        data_lines(body@)[i],
                    )
            },
            Err(e) => e == Error::ManifestParse && !manifest_well_formed(body@),
        },
{
    let ghost s = body@;
    let n = body.unicode_len();
    let mut entries: Vec<ManifestEntry> = Vec::new();
    let mut pos: usize = 0;
    let ghost mut consumed: Seq<Seq<char>> = Seq::empty();
    proof {
        assert(consumed + lines_from(s, 0) =~= lines_from(s, 0));
    }
    while pos < n
        invariant
            pos <= n,
            n == s.len(),
            s == body@,
            manifest_lines(s) == consumed + lines_from(s, pos as int),
            entries@.len() == data_lines_of(consumed).len(),
            forall|i: int|
                0 <= i < entries@.len() ==> line_well_formed(
                    #[trigger] data_lines_of(consumed)[i],
                ),
            forall|i: int|
                0 <= i < entries@.len() ==> entry_of_line(
                    #[trigger] entries@[i]@,
                    data_lines_of(consumed)[i],
                ),
        decreases n - pos,
    {
        proof {
            lemma_find_char(s, '\n', pos as int);
        }
        let j = find_char_at(body, '\n', pos);
        // A line closed by a line feed sheds one carriage return before it.
        let line_end = if j < n && j > pos && body.get_char(j - 1) == '\r' {
            j - 1
        } else {
            j
        };
        let line = body.substring_char(pos, line_end);
        let ghost l = if j < n {
            strip_cr(s.subrange(pos as int, j as int))
        } else {
            s.subrange(pos as int, j as int)
        };
        let ghost rest_pos: int = if j < n { j + 1 } else { n as int };
        proof {
            assert(line@ == l) by {
                if j < n && j > pos && s[j - 1] == '\r' {
                    assert(s.subrange(pos as int, j as int).drop_last() =~= s.subrange(
                        pos as int,
                        j - 1,
                    ));
                }
            }
            // One unfolding of `lines_from` at `pos`, in both the j == n and
            // the j < n shape, leaves `seq![l]` in front.
            assert(lines_from(s, pos as int) == seq![l] + lines_from(s, rest_pos)) by {
                if j == n {
                    assert(lines_from(s, n as int) == Seq::<Seq<char>>::empty());
                    assert(seq![l] + lines_from(s, n as int) =~= seq![l]);
                } else {
                    assert(lines_from(s, pos as int) == seq![l] + lines_from(s, j + 1));
                }
            }
            assert(consumed + lines_from(s, pos as int) =~= consumed.push(l) + lines_from(
                s,
                rest_pos,
            ));
        }
        if line.unicode_len() > 0 {
            match parse_line(line) {
                Ok(entry) => {
                    entries.push(entry);
                },
                Err(_) => {
                    proof {
                        // The offending line is the next data line of the
                        // whole manifest, so the manifest is not well formed.
                        lemma_data_lines_push(consumed, l);
                        let k = data_lines_of(consumed).len() as int;
                        assert(data_lines(s) == data_lines_of(consumed) + data_lines_of(
                            lines_from(s, rest_pos),
                        ).insert(0, l)) by {
                            assert(data_lines_of(consumed.push(l)) == data_lines_of(
                                consumed,
                            ).push(l));
                            assert(manifest_lines(s) == consumed.push(l) + lines_from(
                                s,
                                rest_pos,
                            ));
                            assert(data_lines_of(consumed).push(l) + data_lines_of(
                                lines_from(s, rest_pos),
                            ) =~= data_lines_of(consumed) + data_lines_of(
                                lines_from(s, rest_pos),
                            ).insert(0, l));
                        }
                        assert(data_lines(s)[k] == l);
                        assert(!line_well_formed(data_lines(s)[k]));
                    }
                    return Err(Error::ManifestParse);
                },
            }
        }
        proof {
            lemma_data_lines_push(consumed, l);
            consumed = consumed.push(l);
        }
        pos = if j < n {
            j + 1
        } else {
            n
        };
    }
    proof {
        assert(lines_from(s, n as int) == Seq::<Seq<char>>::empty());
        assert(consumed + lines_from(s, n as int) =~= consumed);
        assert(manifest_lines(s) == consumed);
    }
    Ok(entries)
}

} // verus!
