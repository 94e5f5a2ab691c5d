//! Helpers for walking inode listings: file-type letters, attribute
//! rendering, and the parent cache a path walk is resolved against.

use crate::fmt::u64_to_string;
use vstd::prelude::*;

verus! {

/// The type letter of a file mode: the conventional one-character tag of the
/// mode's format bits.
pub open spec fn spec_mode_type_char(mode: u16) -> char {
    let fmt = mode & 0xf000;
    if fmt == 0x4000 {
        'd'
    } else if fmt == 0x8000 {
        '-'
    } else if fmt == 0xa000 {
        'l'
    } else if fmt == 0x6000 {
        'b'
    } else if fmt == 0x2000 {
        'c'
    } else if fmt == 0x1000 {
        'p'
    } else if fmt == 0xc000 {
        's'
    } else {
        '?'
    }
}

/// The type letter of a file mode.
pub fn mode_to_type_char(mode: u16) -> (r: char)
    ensures
        r == spec_mode_type_char(mode),
{
    let fmt = mode & 0xf000;
    if fmt == 0x4000 {
        'd'
    } else if fmt == 0x8000 {
        '-'
    } else if fmt == 0xa000 {
        'l'
    } else if fmt == 0x6000 {
        'b'
    } else if fmt == 0x2000 {
        'c'
    } else if fmt == 0x1000 {
        'p'
    } else if fmt == 0xc000 {
        's'
    } else {
        '?'
    }
}

/// How a stored attribute value prints: stored values carry a bias of one —
/// zero means inherited — so the shown value is one less, and a few
/// attributes show a name instead of the number.
pub open spec fn spec_opt_value_text(name: Seq<char>, actual: u64) -> Seq<char> {
    if name == "bi_compression"@ || name == "bi_background_compression"@ {
        if actual == 0 {
            "none"@
        } else if actual == 1 {
            "lz4"@
        } else if actual == 2 {
            "gzip"@
        } else if actual == 3 {
            "zstd"@
        } else {
            crate::fmt::spec_dec_digits(actual as nat)
        }
    } else if name == "bi_data_checksum"@ {
        if actual == 0 {
            "none"@
        } else if actual == 1 {
            "crc32c"@
        } else if actual == 2 {
            "crc64"@
        } else if actual == 3 {
            "xxhash"@
        } else {
            crate::fmt::spec_dec_digits(actual as nat)
        }
    } else {
        crate::fmt::spec_dec_digits(actual as nat)
    }
}

/// An attribute with its stored value as display text: the name without its
/// storage prefix, an equals sign, and the unbiased value.
pub open spec fn spec_format_opt(name: Seq<char>, val: u64) -> Seq<char> {
    let short = if name.len() >= 3 && name.take(3) == "bi_"@ {
        name.skip(3)
    } else {
        name
    };
    let actual: u64 = if val == 0 {
        0u64
    } else {
        (val - 1) as u64
    };
    short + seq!['='] + spec_opt_value_text(name, actual)
}

/// Render the value part of one attribute.
fn opt_value_text(name: &String, actual: u64) -> (r: String)
    ensures
        r@ == spec_opt_value_text(name@, actual),
{
    let named = name.eq(&String::from_str("bi_compression")) || name.eq(
        &String::from_str("bi_background_compression"),
    );
    if named && actual == 0 {
        String::from_str("none")
    } else if named && actual == 1 {
        String::from_str("lz4")
    } else if named && actual == 2 {
        String::from_str("gzip")
    } else if named && actual == 3 {
        String::from_str("zstd")
    } else if name.eq(&String::from_str("bi_data_checksum")) {
        if actual == 0 {
            String::from_str("none")
        } else if actual == 1 {
            String::from_str("crc32c")
        } else if actual == 2 {
            String::from_str("crc64")
        } else if actual == 3 {
            String::from_str("xxhash")
        } else {
            u64_to_string(actual)
        }
    } else {
        u64_to_string(actual)
    }
}

/// Render one attribute as `name=value`.
pub fn format_opt(name: &String, val: u64) -> (r: String)
    ensures
        r@ == spec_format_opt(name@, val),
{
    let n = name.as_str().unicode_len();
    let mut out: String = if n >= 3 {
        let prefix = name.as_str().substring_char(0, 3).to_owned();
        proof {
            assert(prefix@ =~= name@.take(3));
            reveal_strlit("bi_");
        }
        if prefix.eq(&String::from_str("bi_")) {
            let short = name.as_str().substring_char(3, n).to_owned();
            proof {
                assert(short@ =~= name@.skip(3));
            }
            short
        } else {
            name.clone()
        }
    } else {
        name.clone()
    };
    proof {
        reveal_strlit("=");
        assert("="@ =~= seq!['=']);
    }
    out.append("=");
    let actual: u64 = if val == 0 {
        0
    } else {
        val - 1
    };
    let value = opt_value_text(name, actual);
    out.append(value.as_str());
    out
}

/// One parent link: an inode, the directory holding it, and the entry's
/// position there.
pub type ParentLink = (u64, u64, u64);

/// The inode a link is about.
pub open spec fn spec_link_inum(e: ParentLink) -> u64 {
    e.0
}

/// A walk's parent map under construction: links arrive in any order and with
/// repeats, and finalizing leaves one link per inode, ordered by inode.
#[derive(Debug)]
pub struct ParentCache {
    pub data: Vec<ParentLink>,
}

/// Some link in `links` is about `inum`.
pub open spec fn spec_inum_represented(links: Seq<ParentLink>, inum: u64) -> bool {
    exists|j: int| 0 <= j < links.len() && spec_link_inum(#[trigger] links[j]) == inum
}

/// Strictly ordered by inode: in particular, every inode appears once.
pub open spec fn spec_links_sorted(s: Seq<ParentLink>) -> bool {
    forall|p: int, q: int|
        0 <= p < q < s.len() ==> spec_link_inum(#[trigger] s[p]) < spec_link_inum(#[trigger] s[q])
}

impl ParentCache {
    /// An empty cache.
    pub fn new() -> (r: ParentCache)
        ensures
            r.data@.len() == 0,
    {
        ParentCache { data: Vec::new() }
    }

    /// Record one parent link; an inode without a directory records nothing.
    pub fn push(&mut self, inum: u64, bi_dir: u64, bi_dir_offset: u64)
        ensures
            final (self).data@ == if bi_dir != 0 {
                old(self).data@.push((inum, bi_dir, bi_dir_offset))
            } else {
                old(self).data@
            },
    {
        if bi_dir != 0 {
            self.data.push((inum, bi_dir, bi_dir_offset));
        }
    }

    /// How many links the cache holds.
    pub fn len(&self) -> (r: usize)
        ensures
            r == self.data@.len(),
    {
        self.data.len()
    }

    /// Order the cache by inode and drop repeated inodes: afterwards the links
    /// are strictly ordered, every kept link was recorded, and every recorded
    /// inode is still represented.
    pub fn finalize(&mut self)
        ensures
            spec_links_sorted(final (self).data@),
            forall|k: int|
                0 <= k < final (self).data@.len() ==> old(self).data@.contains(
                    #[trigger] final (self).data@[k],
                ),
            forall|k: int|
                #![trigger old(self).data@[k]]
                0 <= k < old(self).data@.len() ==> spec_inum_represented(
                    final (self).data@,
                    spec_link_inum(old(self).data@[k]),
                ),
    {
        let ghost orig = self.data@;
        let mut out: Vec<ParentLink> = Vec::new();
        let n = self.data.len();
        let mut i: usize = 0;
        while i < n
            invariant
                i <= n,
                n == self.data@.len(),
                self.data@ == orig,
                spec_links_sorted(out@),
                forall|k: int| 0 <= k < out@.len() ==> orig.contains(#[trigger] out@[k]),
                forall|k: int|
                    #![trigger orig[k]]
                    0 <= k < i ==> spec_inum_represented(out@, spec_link_inum(orig[k])),
            decreases n - i,
        {
            let e = self.data[i];
            let m = out.len();
            let mut pos: usize = 0;
            while pos < m && out[pos].0 < e.0
                invariant
                    pos <= m,
                    m == out@.len(),
                    forall|k: int| 0 <= k < pos ==> spec_link_inum(#[trigger] out@[k]) < e.0,
                decreases m - pos,
            {
                pos = pos + 1;
            }
            if pos < m && out[pos].0 == e.0 {
                proof {
                    assert(spec_inum_represented(out@, spec_link_inum(orig[i as int])));
                }
            } else {
                let ghost pre = out@;
                out.insert(pos, e);
                proof {
                    assert(out@ == pre.insert(pos as int, e));
                    assert(orig.contains(e)) by {
                        assert(orig[i as int] == e);
                    }
                    assert forall|p: int, q: int|
                        0 <= p < q < out@.len() implies spec_link_inum(#[trigger] out@[p])
                        < spec_link_inum(#[trigger] out@[q]) by {
                        if q < pos {
                        } else if p >= pos + 1 {
                            assert(out@[p] == pre[p - 1] && out@[q] == pre[q - 1]);
                        } else if p < pos && q == pos {
                            assert(out@[p] == pre[p]);
                        } else if p < pos && q > pos {
                            assert(out@[p] == pre[p] && out@[q] == pre[q - 1]);
                            if pos < pre.len() {
                                assert(spec_link_inum(pre[pos as int]) != e.0
                                    || spec_link_inum(pre[pos as int]) >= e.0);
                            }
                        } else if p == pos && q > pos {
                            assert(out@[q] == pre[q - 1]);
                            assert(spec_link_inum(pre[q - 1]) >= e.0);
                            assert(spec_link_inum(pre[q - 1]) != e.0);
                        }
                    }
                    assert(spec_link_inum(out@[pos as int]) == spec_link_inum(orig[i as int]));
                    assert forall|k: int|
                        #![trigger orig[k]]
                        0 <= k < i + 1 implies spec_inum_represented(
                        out@,
                        spec_link_inum(orig[k]),
                    ) by {
                        if k < i {
                            let j0 = choose|j: int|
                                0 <= j < pre.len() && spec_link_inum(#[trigger] pre[j])
                                    == spec_link_inum(orig[k]);
                            if j0 < pos {
                                assert(out@[j0] == pre[j0]);
                                assert(spec_link_inum(out@[j0]) == spec_link_inum(orig[k]));
                            } else {
                                assert(out@[j0 + 1] == pre[j0]);
                                assert(spec_link_inum(out@[j0 + 1]) == spec_link_inum(orig[k]));
                            }
                        } else {
                            assert(out@[pos as int] == e);
                            assert(spec_link_inum(out@[pos as int]) == spec_link_inum(orig[k]));
                        }
                    }
                }
            }
            i = i + 1;
        }
        proof {
            assert forall|k: int|
                #![trigger old(self).data@[k]]
                0 <= k < old(self).data@.len() implies spec_inum_represented(
                out@,
                spec_link_inum(old(self).data@[k]),
            ) by {
                assert(orig[k] == old(self).data@[k]);
            }
        }
        self.data = out;
    }
}

} // verus!
