//! The wire form of a heading level: six named levels with stable names in
//! the wire definition.

use vstd::prelude::*;
use vstd::string::StrSliceExecFns;

verus! {

/// A heading level as carried on the wire.
#[derive(Clone, Copy, Debug, PartialEq, Eq, Hash)]
pub enum TitleLevel {
    H1,
    H2,
    H3,
    H4,
    H5,
    H6,
}

impl DeepView for TitleLevel {
    type V = TitleLevel;

    open spec fn deep_view(&self) -> TitleLevel {
        *self
    }
}

impl TitleLevel {
    /// The name each level bears in the wire definition.
    pub open spec fn spec_str_name(l: TitleLevel) -> Seq<char> {
        match l {
            TitleLevel::H1 => "H1"@,
            TitleLevel::H2 => "H2"@,
            TitleLevel::H3 => "H3"@,
            TitleLevel::H4 => "H4"@,
            TitleLevel::H5 => "H5"@,
            TitleLevel::H6 => "H6"@,
        }
    }

    /// The level a wire definition name denotes, if any.
    pub open spec fn spec_from_str_name(s: Seq<char>) -> Option<TitleLevel> {
        if s == "H1"@ {
            Some(TitleLevel::H1)
        } else if s == "H2"@ {
            Some(TitleLevel::H2)
        } else if s == "H3"@ {
            Some(TitleLevel::H3)
        } else if s == "H4"@ {
            Some(TitleLevel::H4)
        } else if s == "H5"@ {
            Some(TitleLevel::H5)
        } else if s == "H6"@ {
            Some(TitleLevel::H6)
        } else {
            None
        }
    }

    /// String value of this level's field name in the wire definition.
    pub fn as_str_name(&self) -> (r: &'static str)
        ensures
            r@ == TitleLevel::spec_str_name(*self),
    {
        match self {
            TitleLevel::H1 => "H1",
            TitleLevel::H2 => "H2",
            TitleLevel::H3 => "H3",
            TitleLevel::H4 => "H4",
            TitleLevel::H5 => "H5",
            TitleLevel::H6 => "H6",
        }
    }

    /// Creates a level from its field name in the wire definition.
    pub fn from_str_name(value: &str) -> (r: Option<TitleLevel>)
        ensures
            r == TitleLevel::spec_from_str_name(value@),
    {
        proof {
            reveal_strlit("H1");
            reveal_strlit("H2");
            reveal_strlit("H3");
            reveal_strlit("H4");
            reveal_strlit("H5");
            reveal_strlit("H6");
        }
        let n = value.unicode_len();
        if n != 2 {
            return None;
        }
        let c0 = value.get_char(0);
        let c1 = value.get_char(1);
        if c0 != 'H' {
            return None;
        }
        if c1 == '1' {
            proof {
                assert(value@ =~= "H1"@);
            }
            Some(TitleLevel::H1)
        } else if c1 == '2' {
            proof {
                assert(value@ =~= "H2"@);
            }
            Some(TitleLevel::H2)
        } else if c1 == '3' {
            proof {
                assert(value@ =~= "H3"@);
            }
            Some(TitleLevel::H3)
        } else if c1 == '4' {
            proof {
                assert(value@ =~= "H4"@);
            }
            Some(TitleLevel::H4)
        } else if c1 == '5' {
            proof {
                assert(value@ =~= "H5"@);
            }
            Some(TitleLevel::H5)
        } else if c1 == '6' {
            proof {
                assert(value@ =~= "H6"@);
            }
            Some(TitleLevel::H6)
        } else {
            None
        }
    }
}

} // verus!
