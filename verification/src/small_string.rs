//! Short strings packed into seven bytes.
//!
//! The content occupies the leading bytes; the first `0xFF` byte — a value no
//! UTF-8 encoding produces — marks the end, and every byte from there on is
//! `0xFF`. A string of up to seven bytes therefore fits inline in a `Value`.

use vstd::prelude::*;

verus! {

/// Sentinel byte marking the end of the stored content.
pub const SMALL_STRING_SENTINEL: u8 = 0xFF;

/// Up to seven bytes of string content, terminated by the first `0xFF` byte.
#[derive(Debug, Clone, Copy, Hash)]
pub struct SmallString {
    data: [u8; 7],
}

impl PartialEq for SmallString {
    fn eq(&self, other: &Self) -> (r: bool)
        ensures
            r == (self@ == other@),
    {
        proof {
            use_type_invariant(*self);
            use_type_invariant(*other);
        }
        let r = self.data[0] == other.data[0] && self.data[1] == other.data[1] && self.data[2]
            == other.data[2] && self.data[3] == other.data[3] && self.data[4] == other.data[4]
            && self.data[5] == other.data[5] && self.data[6] == other.data[6];
        proof {
            if r {
                assert(self.data@ =~= other.data@);
                assert(self@ =~= other@);
            } else if self@ == other@ {
                assert(self@.len() == self.spec_len());
                assert(other@.len() == other.spec_len());
                assert forall|i: int| 0 <= i < 7 implies self.data@[i] == other.data@[i] by {
                    if i < self.spec_len() {
                        assert(self.data@[i] == self@[i]);
                        assert(other.data@[i] == other@[i]);
                    }
                }
                assert(self.data@ =~= other.data@);
            }
        }
        r
    }
}

impl Eq for SmallString {}

impl vstd::std_specs::cmp::PartialEqSpecImpl for SmallString {
    open spec fn obeys_eq_spec() -> bool {
        true
    }

    open spec fn eq_spec(&self, other: &Self) -> bool {
        self@ == other@
    }
}

impl SmallString {
    /// Number of content bytes: the position of the first sentinel.
    pub closed spec fn spec_len(self) -> nat {
        if self.data[0] == 0xFF {
            0
        } else if self.data[1] == 0xFF {
            1
        } else if self.data[2] == 0xFF {
            2
        } else if self.data[3] == 0xFF {
            3
        } else if self.data[4] == 0xFF {
            4
        } else if self.data[5] == 0xFF {
            5
        } else if self.data[6] == 0xFF {
            6
        } else {
            7
        }
    }

    /// The content bytes.
    pub closed spec fn view(self) -> Seq<u8> {
        self.data@.take(self.spec_len() as int)
    }

    /// Every byte at or after the first sentinel is a sentinel, so equal
    /// contents are stored as equal bytes.
    #[verifier::type_invariant]
    pub closed spec fn inv(self) -> bool {
        forall|i: int| self.spec_len() <= i < 7 ==> self.data[i] == 0xFF
    }

    /// The empty string: all sentinel bytes.
    pub fn empty() -> (r: Self)
        ensures
            r@ == Seq::<u8>::empty(),
    {
        let r = SmallString { data: [0xFF, 0xFF, 0xFF, 0xFF, 0xFF, 0xFF, 0xFF] };
        proof {
            assert(r@ =~= Seq::<u8>::empty());
        }
        r
    }

    /// Pack up to seven sentinel-free bytes.
    pub fn from_bytes(s: &[u8]) -> (r: Self)
        requires
            s@.len() <= 7,
            forall|i: int| 0 <= i < s@.len() ==> s@[i] != 0xFF,
        ensures
            r@ == s@,
    {
        let mut data: [u8; 7] = [0xFF, 0xFF, 0xFF, 0xFF, 0xFF, 0xFF, 0xFF];
        let n = s.len();
        let mut i: usize = 0;
        while i < n
            invariant
                n == s@.len() <= 7,
                0 <= i <= n,
                forall|j: int| 0 <= j < s@.len() ==> s@[j] != 0xFF,
                forall|j: int| 0 <= j < i ==> data@[j] == s@[j],
                forall|j: int| i <= j < 7 ==> data@[j] == 0xFF,
            decreases n - i,
        {
            data[i] = s[i];
            i += 1;
        }
        let r = SmallString { data };
        proof {
            assert(r.spec_len() == n);
            assert(r@ =~= s@);
        }
        r
    }

    /// Number of content bytes.
    pub fn len(self) -> (r: usize)
        ensures
            r == self@.len(),
    {
        proof {
            use_type_invariant(self);
        }
        if self.data[0] == 0xFF {
            0
        } else if self.data[1] == 0xFF {
            1
        } else if self.data[2] == 0xFF {
            2
        } else if self.data[3] == 0xFF {
            3
        } else if self.data[4] == 0xFF {
            4
        } else if self.data[5] == 0xFF {
            5
        } else if self.data[6] == 0xFF {
            6
        } else {
            7
        }
    }

    /// Is the content empty?
    pub fn is_empty(self) -> (r: bool)
        ensures
            r == (self@.len() == 0),
    {
        self.data[0] == 0xFF
    }

    /// The content bytes, copied out.
    pub fn to_vec(self) -> (r: Vec<u8>)
        ensures
            r@ == self@,
    {
        proof {
            use_type_invariant(self);
        }
        let n = self.len();
        let mut r: Vec<u8> = Vec::new();
        let mut i: usize = 0;
        while i < n
            invariant
                n == self@.len(),
                0 <= i <= n,
                r@ == self@.take(i as int),
            decreases n - i,
        {
            proof {
                assert(self@[i as int] == self.data@[i as int]);
            }
            r.push(self.data[i]);
            proof {
                assert(r@ =~= self@.take(i + 1));
            }
            i += 1;
        }
        proof {
            assert(r@ =~= self@);
        }
        r
    }
}

} // verus!
