//! One discoverable command-line option, as mined from a help-text line.

use vstd::prelude::*;
use vstd::string::*;

verus! {

/// Mathematical model of a [`Flag`]: its token texts as character sequences.
#[verifier::ext_equal]
pub struct FlagView {
    pub short: Option<Seq<char>>,
    pub long: Option<Seq<char>>,
    pub desc: Seq<char>,
    pub selected: bool,
}

/// One discoverable command-line option.
///
/// `short` is a single-dash token such as `-v`; `long` a double-dash token
/// such as `--verbose`; `desc` the trimmed trailing text of the source line.
/// `selected` is mutated by the selection layer only.
#[derive(Clone, Debug, PartialEq)]
pub struct Flag {
    pub short: Option<String>,
    pub long: Option<String>,
    pub desc: String,
    pub selected: bool,
}

impl View for Flag {
    type V = FlagView;

    open spec fn view(&self) -> FlagView {
        FlagView {
            short: self.short.deep_view(),
            long: self.long.deep_view(),
            desc: self.desc@,
            selected: self.selected,
        }
    }
}

impl DeepView for Flag {
    type V = FlagView;

    open spec fn deep_view(&self) -> FlagView {
        self.view()
    }
}

/// A well-formed flag names at least one of its two tokens: one with neither
/// is never constructed.
pub open spec fn flag_wf(f: FlagView) -> bool {
    f.short is Some || f.long is Some
}

/// The canonical argument string: the long token if present, else the short
/// token, else empty. It is the stable identity key across re-parses.
pub open spec fn spec_arg(f: FlagView) -> Seq<char> {
    match f.long {
        Some(l) => l,
        None => match f.short {
            Some(s) => s,
            None => Seq::empty(),
        },
    }
}

/// The column the description is aligned to in a display line.
pub const TOKEN_COLUMN_WIDTH: usize = 25;

/// `n` spaces.
pub open spec fn spec_spaces(n: nat) -> Seq<char>
    decreases n,
{
    if n == 0 {
        Seq::empty()
    } else {
        spec_spaces((n - 1) as nat).push(' ')
    }
}

/// `s` padded with trailing spaces to width `w`, or unchanged if already
/// that wide.
pub open spec fn spec_pad_to(s: Seq<char>, w: nat) -> Seq<char> {
    if s.len() >= w {
        s
    } else {
        s + spec_spaces((w - s.len()) as nat)
    }
}

/// The token column of a display line: both tokens comma-separated, the
/// short token alone, or the long token indented into the long column.
pub open spec fn spec_flag_tokens(f: FlagView) -> Seq<char> {
    match (f.short, f.long) {
        (Some(s), Some(l)) => s + ", "@ + l,
        (Some(s), None) => s,
        (None, Some(l)) => "    "@ + l,
        (None, None) => "???"@,
    }
}

/// One display line: a checkmark, the padded token column, and the
/// description.
pub open spec fn spec_display(f: FlagView) -> Seq<char> {
    (if f.selected {
        "[x]"@
    } else {
        "[ ]"@
    }) + " "@ + spec_pad_to(spec_flag_tokens(f), TOKEN_COLUMN_WIDTH as nat) + " | "@ + f.desc
}

impl Flag {
    /// The canonical argument string of this flag.
    pub fn as_arg(&self) -> (r: String)
        ensures
            r@ == spec_arg(self@),
    {
        match &self.long {
            Some(l) => l.clone(),
            None => match &self.short {
                Some(s) => s.clone(),
                None => String::new(),
            },
        }
    }

    /// Renders this flag as one line of a selection list.
    pub fn to_display_string(&self) -> (r: String)
        ensures
            r@ == spec_display(self@),
    {
        let mut tokens = String::new();
        match (&self.short, &self.long) {
            (Some(s), Some(l)) => {
                tokens.append(s.as_str());
                tokens.append(", ");
                tokens.append(l.as_str());
            },
            (Some(s), None) => {
                tokens.append(s.as_str());
            },
            (None, Some(l)) => {
                tokens.append("    ");
                tokens.append(l.as_str());
            },
            (None, None) => {
                tokens.append("???");
            },
        }
        proof {
            assert(tokens@ =~= spec_flag_tokens(self@));
        }
        let mut out = String::new();
        if self.selected {
            out.append("[x]");
        } else {
            out.append("[ ]");
        }
        out.append(" ");
        let tlen = tokens.as_str().unicode_len();
        out.append(tokens.as_str());
        let ghost head = (if self.selected {
            "[x]"@
        } else {
            "[ ]"@
        }) + " "@;
        let mut p = tlen;
        proof {
            assert(out@ =~= head + tokens@ + spec_spaces(0));
        }
        while p < TOKEN_COLUMN_WIDTH
            invariant
                tlen <= p,
                tlen <= TOKEN_COLUMN_WIDTH ==> p <= TOKEN_COLUMN_WIDTH,
                tlen >= TOKEN_COLUMN_WIDTH ==> p == tlen,
                out@ == head + tokens@ + spec_spaces((p - tlen) as nat),
            decreases TOKEN_COLUMN_WIDTH - p,
        {
            out.append(" ");
            proof {
                reveal_strlit(" ");
                assert(out@ =~= head + tokens@ + spec_spaces((p + 1 - tlen) as nat));
            }
            p = p + 1;
        }
        out.append(" | ");
        out.append(self.desc.as_str());
        proof {
            assert(spec_spaces(0) =~= Seq::<char>::empty());
            assert(out@ =~= spec_display(self@));
        }
        out
    }
}

} // verus!
