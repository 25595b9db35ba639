use vstd::prelude::*;
use vstd::string::*;

use crate::error::Error;
use crate::text::{find_char, find_char_at, lemma_find_char, str_eq};

verus! {

/// The kind of an archive entry, as the container reports it.
#[derive(Clone, Copy, Debug, PartialEq, Eq, Structural)]
pub enum EntryKind {
    File,
    Directory,
    /// A symbolic or hard link. Links are not supported: planning one fails
    /// rather than silently extracting with unsafe semantics.
    Link,
}

/// One entry of an archive, reduced to what extraction planning reads: its
/// path inside the archive and its kind.
pub struct ArchiveEntry {
    pub path: String,
    pub kind: EntryKind,
}

/// Ghost image of an `ArchiveEntry`.
pub struct ArchiveEntryModel {
    pub path: Seq<char>,
    pub kind: EntryKind,
}

impl View for ArchiveEntry {
    type V = ArchiveEntryModel;

    open spec fn view(&self) -> ArchiveEntryModel {
        ArchiveEntryModel { path: self.path@, kind: self.kind }
    }
}

/// A path segment that normalization discards: an empty run between
/// separators, or a bare dot.
pub open spec fn skippable(c: Seq<char>) -> bool {
    c.len() == 0 || c == "."@
}

/// The components of `p` from position `from` on, split on '/', with empty
/// and bare-dot segments discarded.
pub open spec fn components_from(p: Seq<char>, from: int) -> Seq<Seq<char>>
    decreases p.len() - from
        when 0 <= from <= p.len()
        via components_from_dec
{
    if from >= p.len() {
        Seq::empty()
    } else {
        let j = find_char(p, '/', from);
        let c = p.subrange(from, j);
        let rest = if j == p.len() {
            Seq::<Seq<char>>::empty()
        } else {
            components_from(p, j + 1)
        };
        if skippable(c) {
            rest
        } else {
            seq![c] + rest
        }
    }
}

#[via_fn]
proof fn components_from_dec(p: Seq<char>, from: int) {
    lemma_find_char(p, '/', from);
}

/// The normalized components of an archive entry path.
pub open spec fn path_components(p: Seq<char>) -> Seq<Seq<char>> {
    components_from(p, 0)
}

/// The components of an entry path after the single leading one is stripped.
pub open spec fn stripped_components(p: Seq<char>) -> Seq<Seq<char>> {
    if path_components(p).len() == 0 {
        Seq::empty()
    } else {
        path_components(p).drop_first()
    }
}

/// No stripped component of the entry path climbs out of the destination.
pub open spec fn entry_path_safe(p: Seq<char>) -> bool {
    forall|i: int|
        0 <= i < stripped_components(p).len() ==> #[trigger] stripped_components(p)[i] != ".."@
}

/// The shape every component of a planned write is guaranteed to have:
/// non-empty, free of separators, and neither "." nor "..", so the joined
/// relative path cannot name anything outside the destination directory.
pub open spec fn component_clean(c: Seq<char>) -> bool {
    c.len() > 0 && !c.contains('/') && c != "."@ && c != ".."@
}

/// The stripped components joined back into one relative path with '/'
/// separators.
pub open spec fn join_components(cs: Seq<Seq<char>>) -> Seq<char>
    decreases cs.len(),
{
    if cs.len() == 0 {
        Seq::empty()
    } else if cs.len() == 1 {
        cs[0]
    } else {
        cs[0] + "/"@ + join_components(cs.drop_first())
    }
}

/// What planning one archive entry yields: nothing to write (the entry is
/// the discarded top-level wrapper itself), or one write at a relative path
/// under the destination.
pub open spec fn entry_plan(p: Seq<char>) -> Option<Seq<char>> {
    if stripped_components(p).len() == 0 {
        Option::None
    } else {
        Option::Some(join_components(stripped_components(p)))
    }
}

/// Every component `components_from` yields is non-empty, holds no '/', and
/// is neither "." nor picked apart further: the shape the safety argument
/// rests on.
pub proof fn lemma_components_wf(p: Seq<char>, from: int)
    requires
        0 <= from <= p.len(),
    ensures
        forall|i: int|
            0 <= i < components_from(p, from).len() ==> {
                &&& (#[trigger] components_from(p, from)[i]).len() > 0
                &&& !components_from(p, from)[i].contains('/')
                &&& components_from(p, from)[i] != "."@
            },
    decreases p.len() - from,
{
    if from < p.len() {
        lemma_find_char(p, '/', from);
        let j = find_char(p, '/', from);
        let c = p.subrange(from, j);
        let rest = if j == p.len() {
            Seq::<Seq<char>>::empty()
        } else {
            components_from(p, j + 1)
        };
        assert(!c.contains('/')) by {
            assert forall|k: int| 0 <= k < c.len() implies c[k] != '/' by {
                assert(c[k] == p[from + k]);
            }
        }
        if j < p.len() {
            lemma_components_wf(p, j + 1);
        }
        assert forall|i: int| 0 <= i < components_from(p, from).len() implies {
            &&& (#[trigger] components_from(p, from)[i]).len() > 0
            &&& !components_from(p, from)[i].contains('/')
            &&& components_from(p, from)[i] != "."@
        } by {
            if skippable(c) {
                assert(components_from(p, from) == rest);
            } else {
                assert(components_from(p, from) == seq![c] + rest);
                if i == 0 {
                    assert(components_from(p, from)[0] == c);
                } else {
                    assert(components_from(p, from)[i] == rest[i - 1]);
                }
            }
        }
    }
}

/// Plan the extraction of one archive entry.
///
/// The entry's path is split on '/' (empty and bare-dot segments discarded)
/// and its single leading component — the archive's own top-level wrapper —
/// is stripped. An entry that is the wrapper itself yields no write. A link
/// entry, or an entry with a ".." component left after stripping, is
/// refused.
pub fn plan_entry(path: &str, kind: EntryKind) -> (r: Result<Option<String>, Error>)
    ensures
        match r {
            Ok(w) => {
                &&& kind != EntryKind::Link
                &&& entry_path_safe(path@)
                &&& forall|i: int|
                    0 <= i < stripped_components(path@).len() ==> component_clean(
                        #[trigger] stripped_components(path@)[i],
                    )
                &&& match w {
                    Some(rel) => entry_plan(path@) matches Some(q) && rel@ == q,
                    None => entry_plan(path@) is None,
                }
            },
            Err(e) => {
                &&& (e == Error::UnsupportedEntry || e == Error::UnsafePath)
                &&& (e == Error::UnsupportedEntry <==> kind == EntryKind::Link)
                &&& (e == Error::UnsafePath ==> !entry_path_safe(path@))
            },
        },
{
    match kind {
        EntryKind::Link => {
            return Err(Error::UnsupportedEntry);
        },
        _ => {},
    }
    let comps = split_components(path);
    let n = comps.len();
    if n <= 1 {
        proof {
            assert(stripped_components(path@) =~= Seq::<Seq<char>>::empty());
        }
        return Ok(None);
    }
    let mut i: usize = 1;
    while i < n
        invariant
            1 <= i <= n,
            kind != EntryKind::Link,
            n == comps@.len(),
            n == path_components(path@).len(),
            forall|k: int| 0 <= k < n ==> #[trigger] comps@[k]@ == path_components(path@)[k],
            forall|k: int| 1 <= k < i ==> #[trigger] path_components(path@)[k] != ".."@,
        decreases n - i,
    {
        if str_eq(comps[i].as_str(), "..") {
            proof {
                assert(stripped_components(path@)[i - 1] == ".."@);
            }
            return Err(Error::UnsafePath);
        }
        i = i + 1;
    }
    proof {
        lemma_components_wf(path@, 0);
        assert forall|k: int|
            0 <= k < stripped_components(path@).len() implies component_clean(
            #[trigger] stripped_components(path@)[k],
        ) && stripped_components(path@)[k] != ".."@ by {
            assert(stripped_components(path@)[k] == path_components(path@)[k + 1]);
        }
    }
    let rel = join_from(&comps, 1);
    proof {
        let views = comps@.map_values(|s: String| s@);
        assert forall|k: int|
            0 <= k < n - 1 implies views.subrange(1, n as int)[k] == stripped_components(
            path@,
        )[k] by {
            assert(views[k + 1] == comps@[k + 1]@);
            assert(comps@[k + 1]@ == path_components(path@)[k + 1]);
        }
        assert(views.subrange(1, n as int) =~= stripped_components(path@));
    }
    Ok(Some(rel))
}

/// Every entry of the archive can be extracted: none is a link and none
/// climbs out of the destination after stripping.
pub open spec fn archive_ok(entries: Seq<ArchiveEntryModel>) -> bool {
    forall|i: int|
        0 <= i < entries.len() ==> (#[trigger] entries[i]).kind != EntryKind::Link
            && entry_path_safe(entries[i].path)
}

/// The relative paths a safe archive's extraction writes, in entry order.
/// Entries that are the discarded top-level wrapper itself yield no write.
pub open spec fn planned_writes(entries: Seq<ArchiveEntryModel>) -> Seq<Seq<char>>
    decreases entries.len(),
{
    if entries.len() == 0 {
        Seq::empty()
    } else {
        let rest = planned_writes(entries.drop_last());
        match entry_plan(entries.last().path) {
            Option::Some(w) => rest.push(w),
            Option::None => rest,
        }
    }
}

/// Plan the extraction of a whole archive: the relative paths to write, in
/// entry order, each with one leading path component stripped. The first
/// entry that cannot be extracted — a link, or a path that would escape the
/// destination — fails the plan; by the failure contract of extraction, the
/// caller keeps whatever it already wrote for earlier entries.
pub fn plan_extraction(entries: &Vec<ArchiveEntry>) -> (r: Result<Vec<String>, Error>)
    ensures
        match r {
            Ok(writes) => {
                &&& archive_ok(entries@.map_values(|e: ArchiveEntry| e@))
                &&& writes@.map_values(|s: String| s@) == planned_writes(
                    entries@.map_values(|e: ArchiveEntry| e@),
                )
            },
            Err(e) => {
                &&& (e == Error::UnsupportedEntry || e == Error::UnsafePath)
                &&& !archive_ok(entries@.map_values(|e: ArchiveEntry| e@))
            },
        },
{
    let ghost models = entries@.map_values(|e: ArchiveEntry| e@);
    let mut writes: Vec<String> = Vec::new();
    let mut k: usize = 0;
    proof {
        assert(writes@.map_values(|s: String| s@) =~= planned_writes(models.take(0)));
    }
    while k < entries.len()
        invariant
            k <= entries@.len(),
            models == entries@.map_values(|e: ArchiveEntry| e@),
            models.len() == entries@.len(),
            forall|i: int|
                0 <= i < k ==> (#[trigger] models[i]).kind != EntryKind::Link && entry_path_safe(
                    models[i].path,
                ),
            writes@.map_values(|s: String| s@) == planned_writes(models.take(k as int)),
        decreases entries@.len() - k,
    {
        let e = &entries[k];
        let ghost prev_writes = writes@.map_values(|s: String| s@);
        proof {
            assert(models[k as int] == entries@[k as int]@);
            assert(models.take(k + 1).drop_last() =~= models.take(k as int));
            assert(models.take(k + 1).last() == models[k as int]);
        }
        match plan_entry(e.path.as_str(), e.kind) {
            Ok(Some(rel)) => {
                writes.push(rel);
                proof {
                    assert(writes@.map_values(|s: String| s@) =~= prev_writes.push(rel@));
                    assert(planned_writes(models.take(k + 1)) == planned_writes(
                        models.take(k as int),
                    ).push(rel@));
                }
            },
            Ok(None) => {
                proof {
                    assert(planned_writes(models.take(k + 1)) == planned_writes(
                        models.take(k as int),
                    ));
                }
            },
            Err(err) => {
                proof {
                    assert((models[k as int]).kind == EntryKind::Link || !entry_path_safe(
                        models[k as int].path,
                    ));
                }
                return Err(err);
            },
        }
        k = k + 1;
    }
    proof {
        assert(models.take(entries@.len() as int) =~= models);
    }
    Ok(writes)
}

/// Split an entry path into its normalized components.
fn split_components(path: &str) -> (r: Vec<String>)
    ensures
        r@.len() == path_components(path@).len(),
        forall|k: int| 0 <= k < r@.len() ==> #[trigger] r@[k]@ == path_components(path@)[k],
{
    let ghost p = path@;
    let n = path.unicode_len();
    let mut comps: Vec<String> = Vec::new();
    let mut pos: usize = 0;
    let ghost mut done: Seq<Seq<char>> = Seq::empty();
    proof {
        assert(done + components_from(p, 0) =~= components_from(p, 0));
    }
    while pos < n
        invariant
            pos <= n,
            n == p.len(),
            p == path@,
            path_components(p) == done + components_from(p, pos as int),
            comps@.len() == done.len(),
            forall|k: int| 0 <= k < done.len() ==> #[trigger] comps@[k]@ == done[k],
        decreases n - pos,
    {
        proof {
            lemma_find_char(p, '/', pos as int);
        }
        let j = find_char_at(path, '/', pos);
        let piece = path.substring_char(pos, j);
        let ghost c = p.subrange(pos as int, j as int);
        let ghost rest_pos: int = if j < n { j + 1 } else { n as int };
        proof {
            assert(components_from(p, rest_pos) == if j < n {
                components_from(p, j + 1)
            } else {
                Seq::<Seq<char>>::empty()
            });
            if skippable(c) {
                assert(components_from(p, pos as int) == components_from(p, rest_pos));
            } else {
                assert(components_from(p, pos as int) == seq![c] + components_from(p, rest_pos));
                assert(done + (seq![c] + components_from(p, rest_pos)) =~= done.push(c)
                    + components_from(p, rest_pos));
            }
        }
        if piece.unicode_len() == 0 || str_eq(piece, ".") {
            proof {
                assert(skippable(c));
            }
        } else {
            comps.push(String::from_str(piece));
            proof {
                assert(!skippable(c));
                done = done.push(c);
            }
        }
        pos = if j < n {
            j + 1
        } else {
            n
        };
    }
    proof {
        assert(components_from(p, n as int) == Seq::<Seq<char>>::empty());
        assert(done + components_from(p, n as int) =~= done);
    }
    comps
}

/// Join the components of `comps` from index `at` on with '/' separators.
fn join_from(comps: &Vec<String>, at: usize) -> (r: String)
    requires
        at < comps@.len(),
    ensures
        r@ == join_components(comps@.map_values(|s: String| s@).subrange(
            at as int,
            comps@.len() as int,
        )),
    decreases comps@.len() - at,
{
    let ghost views = comps@.map_values(|s: String| s@);
    let ghost tail = views.subrange(at as int, comps@.len() as int);
    let m = comps.len();
    let head = String::from_str(comps[at].as_str());
    if at + 1 == m {
        proof {
            assert(tail.len() == 1);
            assert(tail[0] == views[at as int]);
        }
        head
    } else {
        let rest = join_from(comps, at + 1);
        let joined = head.concat("/");
        let joined = joined.concat(rest.as_str());
        proof {
            assert(tail.drop_first() =~= views.subrange(at + 1, comps@.len() as int));
            assert(tail[0] == views[at as int]);
            assert(joined@ == tail[0] + "/"@ + join_components(tail.drop_first()));
        }
        joined
    }
}

} // verus!
