use vstd::prelude::*;

verus! {

/// What the presentation layer hands the core after reading the command
/// line: program text, runtime input, and a verbosity tier.
pub struct ParsedArgs {
    pub source: String,
    pub input: String,
    pub verbose: u8,
}

/// The verbosity tier a flag value selects: the tiers 1 through 3 by name;
/// anything else, and an absent value, the quiet tier 0.
pub open spec fn verbosity_of(flag: Option<Seq<char>>) -> u8 {
    match flag {
        Some(s) => if s == seq!['1'] {
            1u8
        } else if s == seq!['2'] {
            2u8
        } else if s == seq!['3'] {
            3u8
        } else {
            0u8
        },
        None => 0u8,
    }
}

/// Reads a verbosity tier out of the optional value of the verbosity flag.
pub fn verbosity_level(flag: Option<String>) -> (v: u8)
    ensures
        v == verbosity_of(
            match flag {
                Some(s) => Some(s@),
                None => None,
            },
        ),
{
    match flag {
        None => 0,
        Some(s) => {
            let st = s.as_str();
            let n = st.unicode_len();
            if n == 1 {
                let c = st.get_char(0);
                proof {
                    assert(s@ =~= seq![c]);
                }
                if c == '1' {
                    1
                } else if c == '2' {
                    2
                } else if c == '3' {
                    3
                } else {
                    0
                }
            } else {
                proof {
                    assert(s@ != seq!['1'] && s@ != seq!['2'] && s@ != seq!['3']);
                }
                0
            }
        },
    }
}

} // verus!
