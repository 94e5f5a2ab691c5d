//! A growable text buffer with tabstops and indentation.
//!
//! Reports are assembled in a byte buffer that knows the current line's
//! start, a list of absolute tabstop columns, and an indent to lay in after
//! each newline.  A tab pads to the next tabstop; a right-justify shifts the
//! current field so it ends at the next tabstop; a newline starts the next
//! line at the current indent.

use crate::fmt::{fmt_bytes_human, spec_dec_digits, spec_fmt_bytes_human, u64_to_string};
use vstd::prelude::*;

verus! {

/// `n` space bytes.
pub open spec fn spec_spaces(n: nat) -> Seq<u8> {
    Seq::new(n, |i: int| 32u8)
}

/// The bytes of ASCII text, character for character.
pub open spec fn spec_ascii_bytes(s: Seq<char>) -> Seq<u8> {
    Seq::new(s.len(), |i: int| s[i] as u8)
}

/// A character a plain write copies through: anything but the three layout
/// characters.
pub open spec fn spec_plain_char(c: char) -> bool {
    c != '\t' && c != '\n' && c != '\r'
}

/// A text buffer with layout state.
pub struct Printbuf {
    /// The text so far.
    pub buf: Vec<u8>,
    /// Whether numbers print with binary-unit suffixes.
    pub human_readable_units: bool,
    /// Spaces laid in after each newline.
    pub indent: usize,
    /// Absolute tabstop columns.
    pub tabstops: Vec<usize>,
    /// The next tabstop a tab will advance to.
    pub cur_tabstop: usize,
    /// Index in `buf` where the current line begins.
    pub line_start: usize,
    /// Index in `buf` where the current field begins, for right-justifying.
    pub field_start: usize,
}

/// The column the buffer's cursor sits in.
pub open spec fn spec_column(pb: Printbuf) -> int {
    if pb.line_start <= pb.buf@.len() {
        pb.buf@.len() - pb.line_start
    } else {
        0
    }
}

/// How many pad spaces reach the wanted column, none when past it.
pub open spec fn spec_pad_to(col: int, target: int) -> nat {
    if col < target {
        (target - col) as nat
    } else {
        0
    }
}

impl Printbuf {
    /// An empty buffer with no tabstops and no indent.
    pub fn new() -> (r: Printbuf)
        ensures
            r.buf@.len() == 0,
            r.human_readable_units == false,
            r.indent == 0,
            r.tabstops@.len() == 0,
            r.cur_tabstop == 0,
            r.line_start == 0,
            r.field_start == 0,
    {
        Printbuf {
            buf: Vec::new(),
            human_readable_units: false,
            indent: 0,
            tabstops: Vec::new(),
            cur_tabstop: 0,
            line_start: 0,
            field_start: 0,
        }
    }

    /// Choose whether numbers print with binary-unit suffixes.
    pub fn set_human_readable(&mut self, v: bool)
        ensures
            *final(self) == (Printbuf { human_readable_units: v, ..*old(self) }),
    {
        self.human_readable_units = v;
    }

    /// The text so far, as raw bytes.
    pub fn as_raw(&self) -> (r: &Vec<u8>)
        ensures
            r@ == self.buf@,
    {
        &self.buf
    }

    /// Add a tabstop `spaces` columns beyond the previous one.
    pub fn tabstop_push(&mut self, spaces: u32)
        ensures
            *final(self) == (Printbuf {
                tabstops: final (self).tabstops,
                ..*old(self)
            }),
            final (self).tabstops@ == old(self).tabstops@.push(
                {
                    let base: int = if old(self).tabstops@.len() > 0 {
                        old(self).tabstops@.last() as int
                    } else {
                        0
                    };
                    if base + spaces <= usize::MAX {
                        (base + spaces) as usize
                    } else {
                        usize::MAX
                    }
                },
            ),
    {
        let base: usize = if self.tabstops.len() > 0 {
            self.tabstops[self.tabstops.len() - 1]
        } else {
            0
        };
        let abs: usize = if base <= usize::MAX - (spaces as usize) {
            base + (spaces as usize)
        } else {
            usize::MAX
        };
        self.tabstops.push(abs);
    }

    /// Drop every tabstop and rewind to the first.
    pub fn tabstops_reset(&mut self)
        ensures
            *final(self) == (Printbuf {
                tabstops: final (self).tabstops,
                cur_tabstop: 0,
                ..*old(self)
            }),
            final (self).tabstops@.len() == 0,
    {
        self.tabstops.clear();
        self.cur_tabstop = 0;
    }

    /// Widen the indent laid in after each newline.
    pub fn indent_add(&mut self, spaces: u32)
        ensures
            *final(self) == (Printbuf {
                indent: if old(self).indent + spaces <= usize::MAX {
                    (old(self).indent + spaces) as usize
                } else {
                    usize::MAX
                },
                ..*old(self)
            }),
    {
        if self.indent <= usize::MAX - (spaces as usize) {
            self.indent = self.indent + (spaces as usize);
        } else {
            self.indent = usize::MAX;
        }
    }

    /// Narrow the indent laid in after each newline.
    pub fn indent_sub(&mut self, spaces: u32)
        ensures
            *final(self) == (Printbuf {
                indent: if old(self).indent >= spaces {
                    (old(self).indent - spaces) as usize
                } else {
                    0
                },
                ..*old(self)
            }),
    {
        if self.indent >= spaces as usize {
            self.indent = self.indent - (spaces as usize);
        } else {
            self.indent = 0;
        }
    }

    /// Start the next line: a newline byte, then the indent.
    pub fn newline(&mut self)
        ensures
            final (self).buf@ == old(self).buf@ + seq![10u8] + spec_spaces(
                old(self).indent as nat,
            ),
            final (self).line_start == old(self).buf@.len() + 1,
            final (self).field_start == final (self).buf@.len(),
            final (self).cur_tabstop == 0,
            final (self).human_readable_units == old(self).human_readable_units,
            final (self).indent == old(self).indent,
            final (self).tabstops == old(self).tabstops,
    {
        let ghost pre = self.buf@;
        self.buf.push(10u8);
        self.line_start = self.buf.len();
        proof {
            assert(pre + seq![10u8] + spec_spaces(0) =~= pre.push(10u8));
        }
        let mut k: usize = 0;
        let indent = self.indent;
        while k < indent
            invariant
                k <= indent,
                self.buf@ == pre + seq![10u8] + spec_spaces(k as nat),
                self.line_start == pre.len() + 1,
                self.human_readable_units == old(self).human_readable_units,
                self.indent == old(self).indent,
                indent == old(self).indent,
                self.tabstops == old(self).tabstops,
            decreases indent - k,
        {
            proof {
                assert((pre + seq![10u8] + spec_spaces(k as nat)).push(32u8) =~= pre + seq![10u8]
                    + spec_spaces((k + 1) as nat));
            }
            self.buf.push(32u8);
            k = k + 1;
        }
        self.cur_tabstop = 0;
        self.field_start = self.buf.len();
    }

    /// Pad with spaces to the next tabstop and start a new field there; with
    /// no tabstop left, only the field starts anew.
    pub fn tab(&mut self)
        ensures
            old(self).cur_tabstop < old(self).tabstops@.len() ==> final (self).buf@ == old(
                self,
            ).buf@ + spec_spaces(
                spec_pad_to(
                    spec_column(*old(self)),
                    old(self).tabstops@[old(self).cur_tabstop as int] as int,
                ),
            ) && final (self).cur_tabstop == old(self).cur_tabstop + 1,
            old(self).cur_tabstop >= old(self).tabstops@.len() ==> final (self).buf@ == old(
                self,
            ).buf@ && final (self).cur_tabstop == old(self).cur_tabstop,
            final (self).field_start == final (self).buf@.len(),
            final (self).human_readable_units == old(self).human_readable_units,
            final (self).indent == old(self).indent,
            final (self).tabstops == old(self).tabstops,
            final (self).line_start == old(self).line_start,
    {
        if self.cur_tabstop < self.tabstops.len() {
            let target = self.tabstops[self.cur_tabstop];
            let ghost pre = self.buf@;
            let col: usize = if self.line_start <= self.buf.len() {
                self.buf.len() - self.line_start
            } else {
                0
            };
            let pad: usize = if col < target {
                target - col
            } else {
                0
            };
            assert(pad == spec_pad_to(spec_column(*self), target as int));
            proof {
                assert(pre + spec_spaces(0) =~= pre);
            }
            let mut k: usize = 0;
            while k < pad
                invariant
                    k <= pad,
                    self.buf@ == pre + spec_spaces(k as nat),
                    self.line_start == old(self).line_start,
                    self.human_readable_units == old(self).human_readable_units,
                    self.indent == old(self).indent,
                    self.tabstops == old(self).tabstops,
                    self.cur_tabstop == old(self).cur_tabstop,
                decreases pad - k,
            {
                proof {
                    assert((pre + spec_spaces(k as nat)).push(32u8) =~= pre + spec_spaces(
                        (k + 1) as nat,
                    ));
                }
                self.buf.push(32u8);
                k = k + 1;
            }
            self.cur_tabstop = self.cur_tabstop + 1;
        }
        self.field_start = self.buf.len();
    }

    /// Right-justify the current field: shift it right so it ends at the next
    /// tabstop, then start a new field; with no tabstop left, only the field
    /// starts anew.
    pub fn tab_rjust(&mut self)
        ensures
            final (self).field_start == final (self).buf@.len(),
            final (self).human_readable_units == old(self).human_readable_units,
            final (self).indent == old(self).indent,
            final (self).tabstops == old(self).tabstops,
            final (self).line_start == old(self).line_start,
            old(self).cur_tabstop < old(self).tabstops@.len() && old(self).field_start <= old(
                self,
            ).buf@.len() ==> final (self).buf@ == old(self).buf@.subrange(
                0,
                old(self).field_start as int,
            ) + spec_spaces(
                spec_pad_to(
                    spec_column(*old(self)),
                    old(self).tabstops@[old(self).cur_tabstop as int] as int,
                ),
            ) + old(self).buf@.subrange(old(self).field_start as int, old(self).buf@.len() as int),
            old(self).cur_tabstop >= old(self).tabstops@.len() ==> final (self).buf@ == old(
                self,
            ).buf@,
    {
        if self.cur_tabstop < self.tabstops.len() {
            let target = self.tabstops[self.cur_tabstop];
            let col: usize = if self.line_start <= self.buf.len() {
                self.buf.len() - self.line_start
            } else {
                0
            };
            let pad: usize = if col < target {
                target - col
            } else {
                0
            };
            if self.field_start <= self.buf.len() {
                let ghost pre = self.buf@;
                let at = self.field_start;
                let mut k: usize = 0;
                while k < pad
                    invariant
                        k <= pad,
                        at <= pre.len(),
                        at + k <= self.buf@.len(),
                        self.line_start == old(self).line_start,
                        self.human_readable_units == old(self).human_readable_units,
                        self.indent == old(self).indent,
                        self.tabstops == old(self).tabstops,
                        self.cur_tabstop == old(self).cur_tabstop,
                        self.field_start == old(self).field_start,
                        self.buf@ == pre.subrange(0, at as int) + spec_spaces(k as nat)
                            + pre.subrange(at as int, pre.len() as int),
                    decreases pad - k,
                {
                    proof {
                        assert((pre.subrange(0, at as int) + spec_spaces(k as nat) + pre.subrange(
                            at as int,
                            pre.len() as int,
                        )).insert(at as int, 32u8) =~= pre.subrange(0, at as int) + spec_spaces(
                            (k + 1) as nat,
                        ) + pre.subrange(at as int, pre.len() as int));
                    }
                    self.buf.insert(at, 32u8);
                    k = k + 1;
                }
                proof {
                    assert(pre.subrange(0, at as int) + spec_spaces(0) + pre.subrange(
                        at as int,
                        pre.len() as int,
                    ) =~= pre);
                }
            }
            self.cur_tabstop = self.cur_tabstop + 1;
        }
        self.field_start = self.buf.len();
    }

    /// Append text, treating tab as a move to the next tabstop, carriage
    /// return as a right-justify, and newline as a line break with indent.
    /// Text free of those three characters lands in the buffer byte for byte,
    /// with all layout state unchanged.
    pub fn write_str(&mut self, s: &str)
        ensures
            (forall|k: int| 0 <= k < s@.len() ==> spec_plain_char(#[trigger] s@[k])) ==> {
                &&& final (self).buf@ == old(self).buf@ + spec_ascii_bytes(s@)
                &&& final (self).human_readable_units == old(self).human_readable_units
                &&& final (self).indent == old(self).indent
                &&& final (self).tabstops == old(self).tabstops
                &&& final (self).cur_tabstop == old(self).cur_tabstop
                &&& final (self).line_start == old(self).line_start
            },
    {
        let n = s.unicode_len();
        let mut i: usize = 0;
        while i < n
            invariant
                i <= n,
                n == s@.len(),
                (forall|k: int| 0 <= k < i ==> spec_plain_char(#[trigger] s@[k])) ==> {
                    &&& self.buf@ == old(self).buf@ + spec_ascii_bytes(s@.take(i as int))
                    &&& self.human_readable_units == old(self).human_readable_units
                    &&& self.indent == old(self).indent
                    &&& self.tabstops == old(self).tabstops
                    &&& self.cur_tabstop == old(self).cur_tabstop
                    &&& self.line_start == old(self).line_start
                },
            decreases n - i,
        {
            let c = s.get_char(i);
            if c == '\t' {
                self.tab();
            } else if c == '\r' {
                self.tab_rjust();
            } else if c == '\n' {
                self.newline();
            } else {
                proof {
                    if forall|k: int| 0 <= k < i ==> spec_plain_char(#[trigger] s@[k]) {
                        assert((old(self).buf@ + spec_ascii_bytes(s@.take(i as int))).push(
                            c as u8,
                        ) =~= old(self).buf@ + spec_ascii_bytes(s@.take(i + 1)));
                    }
                }
                self.buf.push(c as u8);
            }
            i = i + 1;
        }
        proof {
            assert(s@.take(n as int) =~= s@);
        }
    }

    /// Append a number: plain decimal, or with a binary-unit suffix when the
    /// buffer is set human-readable.
    pub fn units_u64(&mut self, v: u64)
        ensures
            final (self).buf@ == old(self).buf@ + spec_ascii_bytes(
                if old(self).human_readable_units {
                    spec_fmt_bytes_human(v)
                } else {
                    spec_dec_digits(v as nat)
                },
            ),
            final (self).human_readable_units == old(self).human_readable_units,
            final (self).indent == old(self).indent,
            final (self).tabstops == old(self).tabstops,
            final (self).cur_tabstop == old(self).cur_tabstop,
            final (self).line_start == old(self).line_start,
    {
        let text = if self.human_readable_units {
            fmt_bytes_human(v)
        } else {
            u64_to_string(v)
        };
        let n = text.as_str().unicode_len();
        let ghost pre = self.buf@;
        let mut i: usize = 0;
        while i < n
            invariant
                i <= n,
                n == text@.len(),
                self.buf@ == pre + spec_ascii_bytes(text@.take(i as int)),
                self.human_readable_units == old(self).human_readable_units,
                self.indent == old(self).indent,
                self.tabstops == old(self).tabstops,
                self.cur_tabstop == old(self).cur_tabstop,
                self.line_start == old(self).line_start,
                self.field_start == old(self).field_start,
            decreases n - i,
        {
            let c = text.as_str().get_char(i);
            proof {
                assert((pre + spec_ascii_bytes(text@.take(i as int))).push(c as u8) =~= pre
                    + spec_ascii_bytes(text@.take(i + 1)));
            }
            self.buf.push(c as u8);
            i = i + 1;
        }
        proof {
            assert(text@.take(n as int) =~= text@);
        }
    }
}

} // verus!
