use vstd::prelude::*;
use crate::text::concat_text;

verus! {

broadcast use vstd::string::group_string_axioms;

/// ANSI terminal colour sequences.
pub struct Bcolors;

/// `ESC [ code m`.
pub open spec fn sgr(code: Seq<char>) -> Seq<char> {
    seq!['\x1b', '['] + code + seq!['m']
}

/// The reset sequence.
pub open spec fn reset() -> Seq<char> {
    sgr(seq!['0'])
}

/// `text` between the sequence for `code` and the reset sequence.
pub open spec fn painted(code: Seq<char>, text: Seq<char>) -> Seq<char> {
    sgr(code) + text + reset()
}

fn paint(start: &str, text: &str) -> (r: String)
    ensures
        r@ == start@ + text@ + "\x1b[0m"@,
{
    let a = concat_text(start, text);
    concat_text(a.as_str(), "\x1b[0m")
}

impl Bcolors {
    /// The colour set.
    pub fn new() -> (r: Bcolors) {
        Bcolors
    }

    /// `text` in bright magenta.
    pub fn header(&self, text: &str) -> (r: String)
        ensures
            r@ == painted(seq!['9', '5'], text@),
    {
        proof {
            reveal_strlit("\x1b[95m");
            reveal_strlit("\x1b[0m");
        }
        let r = paint("\x1b[95m", text);
        assert(r@ =~= painted(seq!['9', '5'], text@));
        r
    }

    /// `text` in bright blue.
    pub fn okblue(&self, text: &str) -> (r: String)
        ensures
            r@ == painted(seq!['9', '4'], text@),
    {
        proof {
            reveal_strlit("\x1b[94m");
            reveal_strlit("\x1b[0m");
        }
        let r = paint("\x1b[94m", text);
        assert(r@ =~= painted(seq!['9', '4'], text@));
        r
    }

    /// `text` in bright green.
    pub fn okgreen(&self, text: &str) -> (r: String)
        ensures
            r@ == painted(seq!['9', '2'], text@),
    {
        proof {
            reveal_strlit("\x1b[92m");
            reveal_strlit("\x1b[0m");
        }
        let r = paint("\x1b[92m", text);
        assert(r@ =~= painted(seq!['9', '2'], text@));
        r
    }

    /// The sequence that starts bright yellow.
    pub fn warning(&self) -> (r: &'static str)
        ensures
            r@ == sgr(seq!['9', '3']),
    {
        proof {
            reveal_strlit("\x1b[93m");
        }
        let r = "\x1b[93m";
        assert(r@ =~= sgr(seq!['9', '3']));
        r
    }

    /// `text` in bright red.
    pub fn fail(&self, text: &str) -> (r: String)
        ensures
            r@ == painted(seq!['9', '1'], text@),
    {
        proof {
            reveal_strlit("\x1b[91m");
            reveal_strlit("\x1b[0m");
        }
        let r = paint("\x1b[91m", text);
        assert(r@ =~= painted(seq!['9', '1'], text@));
        r
    }

    /// The reset sequence.
    pub fn endc(&self) -> (r: &'static str)
        ensures
            r@ == reset(),
    {
        proof {
            reveal_strlit("\x1b[0m");
        }
        let r = "\x1b[0m";
        assert(r@ =~= reset());
        r
    }

    /// The sequence that starts bold text.
    pub fn bold(&self) -> (r: &'static str)
        ensures
            r@ == sgr(seq!['1']),
    {
        proof {
            reveal_strlit("\x1b[1m");
        }
        let r = "\x1b[1m";
        assert(r@ =~= sgr(seq!['1']));
        r
    }

    /// `text` in inverse video.
    pub fn inverse(&self, text: &str) -> (r: String)
        ensures
            r@ == painted(seq!['7'], text@),
    {
        proof {
            reveal_strlit("\x1b[7m");
            reveal_strlit("\x1b[0m");
        }
        let r = paint("\x1b[7m", text);
        assert(r@ =~= painted(seq!['7'], text@));
        r
    }

    /// `text` underlined.
    pub fn underline(&self, text: &str) -> (r: String)
        ensures
            r@ == painted(seq!['4'], text@),
    {
        proof {
            reveal_strlit("\x1b[4m");
            reveal_strlit("\x1b[0m");
        }
        let r = paint("\x1b[4m", text);
        assert(r@ =~= painted(seq!['4'], text@));
        r
    }
}

} // verus!
