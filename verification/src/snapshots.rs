//! The snapshot-tree change decoder.
//!
//! Comparing a snapshot against an ancestor walks the directory-entry keys of
//! the whole tree.  A key is interesting when its snapshot lies in the range
//! under comparison; an ordinary entry in range is an addition, a whiteout a
//! deletion.  A hashed whiteout still carries the dead entry's name; a plain
//! whiteout's name is recovered from the first ordinary entry at the same
//! position anywhere in the tree.

use crate::fmt::{bytes_to_string_lossy, lossy_chars};
use vstd::prelude::*;
use vstd::multiset::Multiset;
use vstd::slice::{slice_subrange, slice_to_vec};

verus! {

/// What happened to a path between two snapshots.
#[derive(Clone, Copy, Debug, PartialEq, Eq, Structural)]
pub enum ChangeKind {
    Add,
    Modify,
    Delete,
}

impl ChangeKind {
    /// The one-letter tag reports use for this kind.
    pub fn letter(self) -> (r: &'static str)
        ensures
            self is Add ==> r@ == seq!['A'],
            self is Modify ==> r@ == seq!['M'],
            self is Delete ==> r@ == seq!['D'],
    {
        match self {
            ChangeKind::Add => {
                proof {
                    reveal_strlit("A");
                    assert("A"@ =~= seq!['A']);
                }
                "A"
            },
            ChangeKind::Modify => {
                proof {
                    reveal_strlit("M");
                    assert("M"@ =~= seq!['M']);
                }
                "M"
            },
            ChangeKind::Delete => {
                proof {
                    reveal_strlit("D");
                    assert("D"@ =~= seq!['D']);
                }
                "D"
            },
        }
    }
}

/// One change between two snapshots.
#[derive(Debug, PartialEq, Eq)]
pub struct Change {
    pub kind: ChangeKind,
    pub path: String,
}

/// The mathematical value of a change.
pub struct ChangeView {
    pub kind: ChangeKind,
    pub path: Seq<char>,
}

impl View for Change {
    type V = ChangeView;

    open spec fn view(&self) -> ChangeView {
        ChangeView { kind: self.kind, path: self.path@ }
    }
}

/// The values of a sequence of changes.
pub open spec fn changes_view(s: Seq<Change>) -> Seq<ChangeView> {
    s.map_values(|c: Change| c@)
}

// The key types the decoder reads.
pub const KEY_TYPE_WHITEOUT: u8 = 1;

pub const KEY_TYPE_HASH_WHITEOUT: u8 = 4;

pub const KEY_TYPE_DIRENT: u8 = 10;

/// One directory-entry key, as the tree walk hands it over: its position,
/// its snapshot, its type, and its raw value bytes.
#[derive(Debug)]
pub struct DirentRecord {
    pub inode: u64,
    pub offset: u64,
    pub snapshot: u32,
    pub key_type: u8,
    pub val: Vec<u8>,
}

/// The mathematical value of a directory-entry key.
pub struct DirentRecordView {
    pub inode: u64,
    pub offset: u64,
    pub snapshot: u32,
    pub key_type: u8,
    pub val: Seq<u8>,
}

impl View for DirentRecord {
    type V = DirentRecordView;

    open spec fn view(&self) -> DirentRecordView {
        DirentRecordView {
            inode: self.inode,
            offset: self.offset,
            snapshot: self.snapshot,
            key_type: self.key_type,
            val: self.val@,
        }
    }
}

/// The values of a sequence of keys.
pub open spec fn records_view(s: Seq<DirentRecord>) -> Seq<DirentRecordView> {
    s.map_values(|r: DirentRecord| r@)
}

/// Byte offset of the name inside a directory entry's value: it follows the
/// 8-byte target and the type byte.
pub const DIRENT_NAME_OFF: usize = 9;

/// No name is this long; a longer name region marks a mangled value.
pub const DIRENT_NAME_MAX: usize = 512;

/// How many bytes precede the first zero, or all of them without one.
pub open spec fn spec_nul_len(s: Seq<u8>) -> nat
    decreases s.len(),
{
    if s.len() == 0 {
        0
    } else if s[0] == 0 {
        0
    } else {
        1 + spec_nul_len(s.drop_first())
    }
}

/// The name of a directory entry's value: the bytes after the fixed part, up
/// to a terminating zero.  `None` is a value too short, a name region at or
/// past the size bound, or an empty name.
pub open spec fn spec_dirent_name(val: Seq<u8>) -> Option<Seq<u8>> {
    if val.len() <= DIRENT_NAME_OFF || val.len() - DIRENT_NAME_OFF >= DIRENT_NAME_MAX {
        None
    } else {
        let region = val.skip(DIRENT_NAME_OFF as int);
        let n = spec_nul_len(region);
        if n == 0 {
            None
        } else {
            Some(region.take(n as int))
        }
    }
}

/// Extract a directory entry's name from its value bytes.
pub fn dirent_name(val: &Vec<u8>) -> (r: Option<Vec<u8>>)
    ensures
        match r {
            Some(name) => spec_dirent_name(val@) == Some(name@),
            None => spec_dirent_name(val@) is None,
        },
{
    let len = val.len();
    if len <= DIRENT_NAME_OFF || len - DIRENT_NAME_OFF >= DIRENT_NAME_MAX {
        return None;
    }
    let region = slice_to_vec(slice_subrange(val.as_slice(), DIRENT_NAME_OFF, len));
    assert(region@ =~= val@.skip(DIRENT_NAME_OFF as int));
    let rlen = region.len();
    let mut i: usize = 0;
    proof {
        assert(region@.skip(0) =~= region@);
    }
    while i < rlen && region[i] != 0
        invariant
            i <= rlen,
            rlen == region@.len(),
            spec_nul_len(region@) == i + spec_nul_len(region@.skip(i as int)),
        decreases rlen - i,
    {
        proof {
            let tail = region@.skip(i as int);
            assert(tail[0] == region@[i as int]);
            assert(tail.drop_first() =~= region@.skip(i + 1));
        }
        i = i + 1;
    }
    proof {
        let tail = region@.skip(i as int);
        if i < rlen {
            assert(tail[0] == region@[i as int]);
        }
        assert(spec_nul_len(region@) == i);
    }
    if i == 0 {
        return None;
    }
    let name = slice_to_vec(slice_subrange(region.as_slice(), 0, i));
    assert(name@ =~= region@.take(i as int));
    Some(name)
}

/// The name found by looking the position up across the whole tree: the
/// first ordinary entry at the same inode and offset, in any snapshot.
pub open spec fn spec_lookup_name(all: Seq<DirentRecordView>, inode: u64, offset: u64) -> Option<
    Seq<u8>,
>
    decreases all.len(),
{
    if all.len() == 0 {
        None
    } else if all[0].inode == inode && all[0].offset == offset && all[0].key_type
        == KEY_TYPE_DIRENT {
        spec_dirent_name(all[0].val)
    } else {
        spec_lookup_name(all.drop_first(), inode, offset)
    }
}

/// Recover the name once held at a position, from the first ordinary entry
/// there in any snapshot.
pub fn lookup_dirent_name_at_pos(keys: &Vec<DirentRecord>, inode: u64, offset: u64) -> (r: Option<
    Vec<u8>,
>)
    ensures
        match r {
            Some(name) => spec_lookup_name(records_view(keys@), inode, offset) == Some(name@),
            None => spec_lookup_name(records_view(keys@), inode, offset) is None,
        },
{
    let len = keys.len();
    let mut i: usize = 0;
    proof {
        assert(records_view(keys@).skip(0) =~= records_view(keys@));
    }
    while i < len
        invariant
            i <= len,
            len == keys@.len(),
            spec_lookup_name(records_view(keys@), inode, offset) == spec_lookup_name(
                records_view(keys@).skip(i as int),
                inode,
                offset,
            ),
        decreases len - i,
    {
        proof {
            let tail = records_view(keys@).skip(i as int);
            assert(tail[0] == records_view(keys@)[i as int]);
            assert(tail.drop_first() =~= records_view(keys@).skip(i + 1));
        }
        if keys[i].inode == inode && keys[i].offset == offset && keys[i].key_type
            == KEY_TYPE_DIRENT {
            return dirent_name(&keys[i].val);
        }
        i = i + 1;
    }
    proof {
        assert(records_view(keys@).skip(len as int).len() == 0);
    }
    None
}

/// Whether a key's snapshot falls in the compared range: exactly the child
/// when no base is given, or from the child up to — not including — the base.
/// Snapshot numbers grow toward older snapshots.
pub open spec fn spec_in_range(snap: u32, child: u32, base: Option<u32>) -> bool {
    match base {
        None => snap == child,
        Some(b) => child <= snap < b,
    }
}

/// Decide whether a key's snapshot is in the compared range.
pub fn snapshot_in_range(snap: u32, child: u32, base: &Option<u32>) -> (r: bool)
    ensures
        r == spec_in_range(snap, child, *base),
{
    match base {
        None => snap == child,
        Some(b) => child <= snap && snap < *b,
    }
}

/// A name reports leave out: the current and parent directory entries.
pub open spec fn spec_dot_name(n: Seq<u8>) -> bool {
    n =~= seq![46u8] || n =~= seq![46u8, 46u8]
}

/// Whether a name is a current- or parent-directory entry.
fn is_dot_name(n: &Vec<u8>) -> (r: bool)
    ensures
        r == spec_dot_name(n@),
{
    if n.len() == 1 && n[0] == 46 {
        assert(n@ =~= seq![46u8]);
        true
    } else if n.len() == 2 && n[0] == 46 && n[1] == 46 {
        assert(n@ =~= seq![46u8, 46u8]);
        true
    } else {
        proof {
            assert(seq![46u8].len() == 1 && seq![46u8][0] == 46);
            assert(seq![46u8, 46u8].len() == 2 && seq![46u8, 46u8][1] == 46);
        }
        false
    }
}

/// The change one key contributes: nothing out of range; a deletion for a
/// whiteout whose name can be recovered; an addition for an ordinary entry;
/// directory self-references never count.  Paths are the recovered name
/// under the root.
pub open spec fn spec_change_for(
    all: Seq<DirentRecordView>,
    rec: DirentRecordView,
    child: u32,
    base: Option<u32>,
) -> Option<ChangeView> {
    if !spec_in_range(rec.snapshot, child, base) {
        None
    } else if rec.key_type == KEY_TYPE_HASH_WHITEOUT || rec.key_type == KEY_TYPE_WHITEOUT {
        let name = if rec.key_type == KEY_TYPE_HASH_WHITEOUT {
            spec_dirent_name(rec.val)
        } else {
            spec_lookup_name(all, rec.inode, rec.offset)
        };
        match name {
            Some(n) => if spec_dot_name(n) {
                None
            } else {
                Some(ChangeView { kind: ChangeKind::Delete, path: seq!['/'] + lossy_chars(n) })
            },
            None => None,
        }
    } else if rec.key_type == KEY_TYPE_DIRENT {
        match spec_dirent_name(rec.val) {
            Some(n) => if spec_dot_name(n) {
                None
            } else {
                Some(ChangeView { kind: ChangeKind::Add, path: seq!['/'] + lossy_chars(n) })
            },
            None => None,
        }
    } else {
        None
    }
}

/// The changes the keys from index `i` on contribute, in key order.
pub open spec fn spec_changes_from(
    all: Seq<DirentRecordView>,
    i: int,
    child: u32,
    base: Option<u32>,
) -> Seq<ChangeView>
    decreases all.len() - i,
{
    if i < 0 || i >= all.len() {
        Seq::empty()
    } else {
        (match spec_change_for(all, all[i], child, base) {
            Some(c) => seq![c],
            None => Seq::empty(),
        }) + spec_changes_from(all, i + 1, child, base)
    }
}

/// Build the path of a change: the name under the root.
fn change_path(name: &Vec<u8>) -> (r: String)
    ensures
        r@ == seq!['/'] + lossy_chars(name@),
{
    proof {
        reveal_strlit("/");
        assert("/"@ =~= seq!['/']);
    }
    let mut path = String::from_str("/");
    let text = bytes_to_string_lossy(name);
    path.append(text.as_str());
    path
}

/// Find every change between the base and child snapshots among the tree's
/// directory-entry keys, in key order.
pub fn find_snapshot_changes(
    keys: &Vec<DirentRecord>,
    child_snapshot: u32,
    base_snapshot: &Option<u32>,
) -> (r: Vec<Change>)
    ensures
        changes_view(r@) == spec_changes_from(records_view(keys@), 0, child_snapshot, *base_snapshot),
{
    let ghost all = records_view(keys@);
    let mut changes: Vec<Change> = Vec::new();
    let len = keys.len();
    let mut i: usize = 0;
    proof {
        assert(changes_view(changes@) =~= Seq::<ChangeView>::empty());
        assert(changes_view(changes@) + spec_changes_from(all, 0, child_snapshot, *base_snapshot)
            =~= spec_changes_from(all, 0, child_snapshot, *base_snapshot));
    }
    while i < len
        invariant
            i <= len,
            len == keys@.len(),
            all == records_view(keys@),
            spec_changes_from(all, 0, child_snapshot, *base_snapshot) == changes_view(changes@)
                + spec_changes_from(all, i as int, child_snapshot, *base_snapshot),
        decreases len - i,
    {
        let ghost pre = changes_view(changes@);
        let rec = &keys[i];
        proof {
            assert(all[i as int] == rec@);
        }
        if snapshot_in_range(rec.snapshot, child_snapshot, base_snapshot) {
            if rec.key_type == KEY_TYPE_HASH_WHITEOUT || rec.key_type == KEY_TYPE_WHITEOUT {
                let name = if rec.key_type == KEY_TYPE_HASH_WHITEOUT {
                    dirent_name(&rec.val)
                } else {
                    lookup_dirent_name_at_pos(keys, rec.inode, rec.offset)
                };
                match name {
                    Some(n) => {
                        if !is_dot_name(&n) {
                            let path = change_path(&n);
                            changes.push(Change { kind: ChangeKind::Delete, path });
                            proof {
                                assert(changes_view(changes@) =~= pre.push(
                                    changes@.last()@,
                                ));
                            }
                        }
                    },
                    None => {},
                }
            } else if rec.key_type == KEY_TYPE_DIRENT {
                match dirent_name(&rec.val) {
                    Some(n) => {
                        if !is_dot_name(&n) {
                            let path = change_path(&n);
                            changes.push(Change { kind: ChangeKind::Add, path });
                            proof {
                                assert(changes_view(changes@) =~= pre.push(
                                    changes@.last()@,
                                ));
                            }
                        }
                    },
                    None => {},
                }
            }
        }
        proof {
            let step = spec_change_for(all, all[i as int], child_snapshot, *base_snapshot);
            match step {
                Some(c) => {
                    assert(changes_view(changes@) =~= pre.push(c));
                    assert(pre.push(c) =~= pre + seq![c]);
                    assert(pre + (seq![c] + spec_changes_from(
                        all,
                        i + 1,
                        child_snapshot,
                        *base_snapshot,
                    )) =~= (pre + seq![c]) + spec_changes_from(
                        all,
                        i + 1,
                        child_snapshot,
                        *base_snapshot,
                    ));
                },
                None => {
                    assert(changes_view(changes@) =~= pre);
                    assert(Seq::<ChangeView>::empty() + spec_changes_from(
                        all,
                        i + 1,
                        child_snapshot,
                        *base_snapshot,
                    ) =~= spec_changes_from(all, i + 1, child_snapshot, *base_snapshot));
                },
            }
        }
        i = i + 1;
    }
    proof {
        assert(changes_view(changes@) + Seq::<ChangeView>::empty() =~= changes_view(changes@));
    }
    changes
}

/// Lexicographic order on text.
pub open spec fn spec_lex_le(a: Seq<char>, b: Seq<char>) -> bool
    decreases a.len(),
{
    if a.len() == 0 {
        true
    } else if b.len() == 0 {
        false
    } else if a[0] != b[0] {
        a[0] < b[0]
    } else {
        spec_lex_le(a.drop_first(), b.drop_first())
    }
}

/// Compare two strings lexicographically.
pub fn str_lex_le(a: &String, b: &String) -> (r: bool)
    ensures
        r == spec_lex_le(a@, b@),
{
    let an = a.as_str().unicode_len();
    let bn = b.as_str().unicode_len();
    let mut i: usize = 0;
    proof {
        assert(a@.skip(0) =~= a@);
        assert(b@.skip(0) =~= b@);
    }
    while i < an && i < bn
        invariant
            i <= an,
            i <= bn,
            an == a@.len(),
            bn == b@.len(),
            spec_lex_le(a@, b@) == spec_lex_le(a@.skip(i as int), b@.skip(i as int)),
        decreases an - i,
    {
        proof {
            let ta = a@.skip(i as int);
            let tb = b@.skip(i as int);
            assert(ta[0] == a@[i as int]);
            assert(tb[0] == b@[i as int]);
            assert(ta.drop_first() =~= a@.skip(i + 1));
            assert(tb.drop_first() =~= b@.skip(i + 1));
        }
        let ca = a.as_str().get_char(i);
        let cb = b.as_str().get_char(i);
        if ca != cb {
            return ca < cb;
        }
        i = i + 1;
    }
    proof {
        assert(a@.skip(i as int).len() == a@.len() - i);
        assert(b@.skip(i as int).len() == b@.len() - i);
    }
    i >= an
}

/// Every pair of positions in `s` is ordered by path.
pub open spec fn spec_changes_sorted(s: Seq<ChangeView>) -> bool {
    forall|p: int, q: int| 0 <= p < q < s.len() ==> spec_lex_le(#[trigger] s[p].path, #[trigger] s[q].path)
}

/// Sort changes by path: the result holds exactly the given changes, ordered
/// lexicographically.
pub fn sort_changes_by_path(changes: Vec<Change>) -> (r: Vec<Change>)
    ensures
        changes_view(r@).to_multiset() == changes_view(changes@).to_multiset(),
        spec_changes_sorted(changes_view(r@)),
{
    broadcast use vstd::seq_lib::group_to_multiset_ensures;

    let mut rest = changes;
    let mut out: Vec<Change> = Vec::new();
    let ghost orig = changes_view(rest@);
    proof {
        assert(changes_view(out@) =~= Seq::<ChangeView>::empty());
        assert(changes_view(out@).to_multiset().add(changes_view(rest@).to_multiset())
            =~= orig.to_multiset());
    }
    while rest.len() > 0
        invariant
            changes_view(out@).to_multiset().add(changes_view(rest@).to_multiset())
                == orig.to_multiset(),
            spec_changes_sorted(changes_view(out@)),
            forall|p: int, q: int|
                0 <= p < changes_view(out@).len() && 0 <= q < changes_view(rest@).len()
                    ==> spec_lex_le(
                    #[trigger] changes_view(out@)[p].path,
                    #[trigger] changes_view(rest@)[q].path,
                ),
        decreases rest@.len(),
    {
        proof {
            lemma_lex_total(changes_view(rest@)[0].path, changes_view(rest@)[0].path);
        }
        let mut m: usize = 0;
        let mut j: usize = 1;
        while j < rest.len()
            invariant
                m < j <= rest@.len() || (j <= rest@.len() && m == 0),
                m < rest@.len(),
                rest@.len() > 0,
                forall|k: int| 0 <= k < j ==> spec_lex_le(
                    changes_view(rest@)[m as int].path,
                    #[trigger] changes_view(rest@)[k].path,
                ),
            decreases rest@.len() - j,
        {
            if !str_lex_le(&rest[m].path, &rest[j].path) {
                proof {
                    lemma_lex_total(changes_view(rest@)[m as int].path, changes_view(
                        rest@,
                    )[j as int].path);
                    lemma_lex_total(changes_view(rest@)[j as int].path, changes_view(
                        rest@,
                    )[j as int].path);
                    lemma_lex_transitive_all();
                }
                m = j;
            } else {
                proof {
                    lemma_lex_transitive_all();
                }
            }
            j = j + 1;
        }
        let ghost pre_out = changes_view(out@);
        let ghost pre_rest = changes_view(rest@);
        let picked = rest.remove(m);
        let ghost pv = picked@;
        out.push(picked);
        proof {
            lemma_lex_transitive_all();
            pre_out.to_multiset_ensures();
            pre_rest.to_multiset_ensures();
            assert(changes_view(out@) =~= pre_out.push(pv));
            assert(changes_view(rest@) =~= pre_rest.remove(m as int));
            assert(pre_rest[m as int] == pv);
            assert(pre_out.push(pv).to_multiset() =~= pre_out.to_multiset().insert(pv));
            assert(pre_rest.remove(m as int).to_multiset() =~= pre_rest.to_multiset().remove(
                pre_rest[m as int],
            ));
            assert(changes_view(out@).to_multiset() =~= pre_out.to_multiset().insert(pv));
            assert(changes_view(rest@).to_multiset() =~= pre_rest.to_multiset().remove(pv));
            assert(pre_rest.contains(pv));
            assert(pre_rest.to_multiset().count(pv) > 0);
            assert(changes_view(out@).to_multiset().add(changes_view(rest@).to_multiset())
                =~= pre_out.to_multiset().add(pre_rest.to_multiset()));
            assert forall|q: int|
                0 <= q < changes_view(rest@).len() implies spec_lex_le(
                pv.path,
                #[trigger] changes_view(rest@)[q].path,
            ) by {
                if q < m {
                    assert(changes_view(rest@)[q] == pre_rest[q]);
                } else {
                    assert(changes_view(rest@)[q] == pre_rest[q + 1]);
                }
            }
        }
    }
    proof {
        assert(changes_view(rest@).to_multiset() =~= Multiset::<ChangeView>::empty());
        assert(changes_view(out@).to_multiset().add(Multiset::<ChangeView>::empty())
            =~= changes_view(out@).to_multiset());
    }
    out
}

/// Lexicographic order is total: two texts compare one way or the other.
pub proof fn lemma_lex_total(a: Seq<char>, b: Seq<char>)
    ensures
        spec_lex_le(a, b) || spec_lex_le(b, a),
    decreases a.len(),
{
    if a.len() == 0 || b.len() == 0 {
    } else if a[0] != b[0] {
    } else {
        lemma_lex_total(a.drop_first(), b.drop_first());
    }
}

/// Lexicographic order is transitive.
pub proof fn lemma_lex_transitive(a: Seq<char>, b: Seq<char>, c: Seq<char>)
    requires
        spec_lex_le(a, b),
        spec_lex_le(b, c),
    ensures
        spec_lex_le(a, c),
    decreases a.len(),
{
    if a.len() == 0 {
    } else if b.len() == 0 {
    } else if c.len() == 0 {
    } else {
        if a[0] == b[0] && b[0] == c[0] {
            lemma_lex_transitive(a.drop_first(), b.drop_first(), c.drop_first());
        }
    }
}

/// Transitivity, quantified for use inside loop proofs.
pub proof fn lemma_lex_transitive_all()
    ensures
        forall|a: Seq<char>, b: Seq<char>, c: Seq<char>|
            #![trigger spec_lex_le(a, b), spec_lex_le(b, c)]
            spec_lex_le(a, b) && spec_lex_le(b, c) ==> spec_lex_le(a, c),
{
    assert forall|a: Seq<char>, b: Seq<char>, c: Seq<char>|
        #![trigger spec_lex_le(a, b), spec_lex_le(b, c)]
        spec_lex_le(a, b) && spec_lex_le(b, c) implies spec_lex_le(a, c) by {
        lemma_lex_transitive(a, b, c);
    }
}

/// Compare two snapshots: every change between them, ordered by path.
pub fn diff_subvolumes(
    keys: &Vec<DirentRecord>,
    child_snapshot: u32,
    base_snapshot: &Option<u32>,
) -> (r: Vec<Change>)
    ensures
        changes_view(r@).to_multiset() == spec_changes_from(
            records_view(keys@),
            0,
            child_snapshot,
            *base_snapshot,
        ).to_multiset(),
        spec_changes_sorted(changes_view(r@)),
{
    let changes = find_snapshot_changes(keys, child_snapshot, base_snapshot);
    sort_changes_by_path(changes)
}

} // verus!
