//! The selection model: the current flag list, a cursor into it, and the
//! per-flag selection state, surviving a wholesale re-parse.
//!
//! The flag list is replaced on every language toggle; `selected` state is
//! projected forward by matching flags on their canonical argument string,
//! and the cursor is clamped into the new list's bounds. A failed reload
//! leaves the model untouched: the toggle is atomic.

use vstd::prelude::*;
use vstd::string::*;

use crate::flag::{spec_arg, Flag, FlagView};
use crate::{spec_other_language, Error, Language};

verus! {

/// Mathematical model of an [`App`].
#[verifier::ext_equal]
pub struct AppView {
    pub target_cmd: Seq<char>,
    pub flags: Seq<FlagView>,
    pub cursor: Option<int>,
    pub current_lang: Language,
}

/// The selection model for one target command.
#[derive(Clone, Debug, PartialEq)]
pub struct App {
    pub target_cmd: String,
    pub flags: Vec<Flag>,
    pub cursor: Option<usize>,
    pub current_lang: Language,
}

impl View for App {
    type V = AppView;

    open spec fn view(&self) -> AppView {
        AppView {
            target_cmd: self.target_cmd@,
            flags: self.flags.deep_view(),
            cursor: match self.cursor {
                Some(i) => Some(i as int),
                None => None,
            },
            current_lang: self.current_lang,
        }
    }
}

/// The canonical argument strings of the selected flags, in list order.
pub open spec fn spec_selected_args(flags: Seq<FlagView>) -> Seq<Seq<char>>
    decreases flags.len(),
{
    if flags.len() == 0 {
        Seq::empty()
    } else {
        let rest = spec_selected_args(flags.drop_last());
        if flags.last().selected {
            rest.push(spec_arg(flags.last()))
        } else {
            rest
        }
    }
}

/// The arguments joined with single spaces.
pub open spec fn spec_join_args(args: Seq<Seq<char>>) -> Seq<char>
    decreases args.len(),
{
    if args.len() == 0 {
        Seq::empty()
    } else if args.len() == 1 {
        args[0]
    } else {
        spec_join_args(args.drop_last()) + " "@ + args.last()
    }
}

/// The command-line preview: the target command, followed by the selected
/// arguments if there are any.
pub open spec fn spec_preview(m: AppView) -> Seq<char> {
    if spec_selected_args(m.flags).len() == 0 {
        m.target_cmd
    } else {
        m.target_cmd + " "@ + spec_join_args(spec_selected_args(m.flags))
    }
}

/// Each flag of a freshly parsed list, marked selected when its canonical
/// argument string appears in the snapshot taken before the reload.
pub open spec fn spec_mark_selected(flags: Seq<FlagView>, snapshot: Seq<Seq<char>>) -> Seq<
    FlagView,
> {
    flags.map(
        |i: int, f: FlagView|
            FlagView {
                selected: f.selected || snapshot.contains(spec_arg(f)),
                ..f
            },
    )
}

/// The cursor after a reload: kept if still in bounds, reset to the start
/// if now invalid, absent if it was absent or the new list is empty.
pub open spec fn spec_clamp_cursor(cursor: Option<int>, len: int) -> Option<int> {
    match cursor {
        None => None,
        Some(i) => if i < len {
            Some(i)
        } else if len > 0 {
            Some(0int)
        } else {
            None
        },
    }
}

/// The whole model after a successful reload: the new list with selection
/// projected forward, the clamped cursor, and the new language.
pub open spec fn spec_reload(m: AppView, new_lang: Language, new_flags: Seq<FlagView>) -> AppView {
    AppView {
        target_cmd: m.target_cmd,
        flags: spec_mark_selected(new_flags, spec_selected_args(m.flags)),
        cursor: spec_clamp_cursor(m.cursor, new_flags.len() as int),
        current_lang: new_lang,
    }
}

/// A flag of the new list whose canonical argument was selected before a
/// reload is selected after it: selection survives the re-parse.
pub proof fn lemma_reload_preserves_selection(
    m: AppView,
    new_lang: Language,
    new_flags: Seq<FlagView>,
    i: int,
)
    requires
        0 <= i < new_flags.len(),
        spec_selected_args(m.flags).contains(spec_arg(new_flags[i])),
    ensures
        spec_reload(m, new_lang, new_flags).flags[i].selected,
{
}

/// Whether `s` occurs among `args`.
fn contains_arg(args: &Vec<String>, s: &String) -> (found: bool)
    ensures
        found == args.deep_view().contains(s@),
{
    let n = args.len();
    let mut i: usize = 0;
    while i < n
        invariant
            i <= n,
            n == args.len(),
            forall|k: int| 0 <= k < i ==> args.deep_view()[k] != s@,
        decreases n - i,
    {
        if args[i].eq(s) {
            proof {
                assert(args.deep_view()[i as int] == args@[i as int]@);
                assert(args.deep_view()[i as int] == s@);
            }
            return true;
        }
        proof {
            assert(args.deep_view()[i as int] == args@[i as int]@);
        }
        i = i + 1;
    }
    false
}

impl App {
    /// The cursor, when present, points into the flag list.
    pub open spec fn wf(&self) -> bool {
        match self@.cursor {
            Some(i) => 0 <= i < self@.flags.len(),
            None => true,
        }
    }

    /// A fresh model: cursor on the first flag if there is one, language as
    /// the system provides it.
    pub fn new(target_cmd: String, flags: Vec<Flag>) -> (app: App)
        ensures
            app.wf(),
            app@.target_cmd == target_cmd@,
            app@.flags == flags.deep_view(),
            app@.current_lang is System,
            flags@.len() == 0 ==> app@.cursor is None,
            flags@.len() > 0 ==> app@.cursor == Some(0int),
    {
        let cursor = if flags.len() == 0 {
            None
        } else {
            Some(0usize)
        };
        App { target_cmd, flags, cursor, current_lang: Language::System }
    }

    /// The index the cursor moves to on a forward step.
    pub open spec fn spec_next_index(cursor: Option<int>, len: int) -> int {
        match cursor {
            None => 0,
            Some(i) => if i + 1 < len {
                i + 1
            } else {
                0
            },
        }
    }

    /// The index the cursor moves to on a backward step.
    pub open spec fn spec_previous_index(cursor: Option<int>, len: int) -> int {
        match cursor {
            None => 0,
            Some(i) => if i == 0 {
                len - 1
            } else {
                i - 1
            },
        }
    }

    /// Moves the cursor forward, wrapping from the last flag to the first;
    /// a no-op on an empty list.
    pub fn next(&mut self)
        requires
            old(self).wf(),
        ensures
            final(self).wf(),
            final(self)@.target_cmd == old(self)@.target_cmd,
            final(self)@.flags == old(self)@.flags,
            final(self)@.current_lang == old(self)@.current_lang,
            old(self)@.flags.len() == 0 ==> final(self)@.cursor == old(self)@.cursor,
            old(self)@.flags.len() > 0 ==> final(self)@.cursor == Some(
                Self::spec_next_index(old(self)@.cursor, old(self)@.flags.len() as int),
            ),
    {
        if self.flags.len() == 0 {
            return;
        }
        let i = match self.cursor {
            Some(i) => if i + 1 < self.flags.len() {
                i + 1
            } else {
                0
            },
            None => 0,
        };
        self.cursor = Some(i);
    }

    /// Moves the cursor backward, wrapping from the first flag to the last;
    /// a no-op on an empty list.
    pub fn previous(&mut self)
        requires
            old(self).wf(),
        ensures
            final(self).wf(),
            final(self)@.target_cmd == old(self)@.target_cmd,
            final(self)@.flags == old(self)@.flags,
            final(self)@.current_lang == old(self)@.current_lang,
            old(self)@.flags.len() == 0 ==> final(self)@.cursor == old(self)@.cursor,
            old(self)@.flags.len() > 0 ==> final(self)@.cursor == Some(
                Self::spec_previous_index(old(self)@.cursor, old(self)@.flags.len() as int),
            ),
    {
        if self.flags.len() == 0 {
            return;
        }
        let i = match self.cursor {
            Some(i) => if i == 0 {
                self.flags.len() - 1
            } else {
                i - 1
            },
            None => 0,
        };
        self.cursor = Some(i);
    }

    /// Flips the selection of the flag under the cursor; a no-op without a
    /// cursor.
    pub fn toggle_selection(&mut self)
        requires
            old(self).wf(),
        ensures
            final(self).wf(),
            final(self)@.target_cmd == old(self)@.target_cmd,
            final(self)@.cursor == old(self)@.cursor,
            final(self)@.current_lang == old(self)@.current_lang,
            match old(self)@.cursor {
                Some(i) => final(self)@.flags == old(self)@.flags.update(
                    i,
                    FlagView { selected: !old(self)@.flags[i].selected, ..old(self)@.flags[i] },
                ),
                None => final(self)@.flags == old(self)@.flags,
            },
    {
        match self.cursor {
            Some(i) => {
                if i < self.flags.len() {
                    let was = self.flags[i].selected;
                    self.flags[i].selected = !was;
                    proof {
                        assert(self@.flags =~= old(self)@.flags.update(
                            i as int,
                            FlagView {
                                selected: !old(self)@.flags[i as int].selected,
                                ..old(self)@.flags[i as int]
                            },
                        ));
                    }
                }
            },
            None => {},
        }
    }

    /// The canonical argument strings of all selected flags, in list order.
    pub fn get_selected_args(&self) -> (args: Vec<String>)
        ensures
            args.deep_view() == spec_selected_args(self@.flags),
    {
        let n = self.flags.len();
        let mut args: Vec<String> = Vec::new();
        let mut i: usize = 0;
        proof {
            assert(args.deep_view() =~= spec_selected_args(self@.flags.take(0)));
        }
        while i < n
            invariant
                i <= n,
                n == self.flags.len(),
                args.deep_view() == spec_selected_args(self@.flags.take(i as int)),
            decreases n - i,
        {
            let ghost prev = args.deep_view();
            if self.flags[i].selected {
                args.push(self.flags[i].as_arg());
                proof {
                    assert(args.deep_view() =~= prev.push(spec_arg(self@.flags[i as int])));
                }
            }
            proof {
                assert(self@.flags.take(i + 1).drop_last() =~= self@.flags.take(i as int));
                assert(self@.flags.take(i + 1).last() == self@.flags[i as int]);
                assert(args.deep_view() =~= spec_selected_args(self@.flags.take(i + 1)));
            }
            i = i + 1;
        }
        proof {
            assert(self@.flags.take(n as int) =~= self@.flags);
        }
        args
    }

    /// The preview line: the target command followed by the space-joined
    /// selected arguments, or the command alone when nothing is selected.
    pub fn build_preview_string(&self) -> (r: String)
        ensures
            r@ == spec_preview(self@),
    {
        let args = self.get_selected_args();
        if args.len() == 0 {
            return self.target_cmd.clone();
        }
        let mut out = self.target_cmd.clone();
        out.append(" ");
        out.append(args[0].as_str());
        let mut i: usize = 1;
        proof {
            assert(spec_join_args(args.deep_view().take(1)) == args.deep_view()[0]);
            assert(out@ =~= self.target_cmd@ + " "@ + spec_join_args(args.deep_view().take(1)));
        }
        while i < args.len()
            invariant
                1 <= i <= args.len(),
                args.deep_view() == spec_selected_args(self@.flags),
                out@ == self.target_cmd@ + " "@ + spec_join_args(args.deep_view().take(i as int)),
            decreases args.len() - i,
        {
            out.append(" ");
            out.append(args[i].as_str());
            proof {
                let dv = args.deep_view();
                assert(dv.take(i + 1).drop_last() =~= dv.take(i as int));
                assert(dv.take(i + 1).last() == dv[i as int]);
                assert(out@ =~= self.target_cmd@ + " "@ + spec_join_args(dv.take(i + 1)));
            }
            i = i + 1;
        }
        proof {
            assert(args.deep_view().take(args.len() as int) =~= args.deep_view());
        }
        out
    }

    /// The language a toggle switches to.
    pub fn next_language(&self) -> (l: Language)
        ensures
            l == spec_other_language(self@.current_lang),
    {
        match self.current_lang {
            Language::System => Language::English,
            Language::English => Language::System,
        }
    }

    /// Finishes a language toggle, given the result of re-running
    /// acquisition and extraction for the new language.
    ///
    /// On success the flag list is replaced, selection is projected forward
    /// by canonical argument string, and the cursor is clamped. On failure
    /// nothing changes at all: the toggle is atomic.
    pub fn apply_reload(&mut self, new_lang: Language, fetched: Result<Vec<Flag>, Error>)
        requires
            old(self).wf(),
        ensures
            final(self).wf(),
            fetched is Err ==> final(self)@ == old(self)@,
            fetched matches Ok(nf) ==> final(self)@ == spec_reload(
                old(self)@,
                new_lang,
                nf.deep_view(),
            ),
    {
        match fetched {
            Err(_) => {},
            Ok(mut new_flags) => {
                let snapshot = self.get_selected_args();
                let ghost nf0 = new_flags.deep_view();
                let ghost marked = spec_mark_selected(nf0, snapshot.deep_view());
                let n = new_flags.len();
                let mut k: usize = 0;
                proof {
                    assert(new_flags.deep_view() =~= marked.take(0) + nf0.skip(0));
                }
                while k < n
                    invariant
                        k <= n,
                        n == new_flags.len(),
                        nf0.len() == n,
                        marked == spec_mark_selected(nf0, snapshot.deep_view()),
                        new_flags.deep_view() == marked.take(k as int) + nf0.skip(k as int),
                    decreases n - k,
                {
                    let ghost before = new_flags.deep_view();
                    let arg = new_flags[k].as_arg();
                    proof {
                        assert(before[k as int] == new_flags@[k as int]@);
                        assert(before[k as int] == nf0[k as int]);
                        assert(marked[k as int] == (FlagView {
                            selected: nf0[k as int].selected || snapshot.deep_view().contains(
                                spec_arg(nf0[k as int]),
                            ),
                            ..nf0[k as int]
                        }));
                    }
                    let found = contains_arg(&snapshot, &arg);
                    if found {
                        new_flags[k].selected = true;
                    }
                    proof {
                        assert(new_flags.deep_view()[k as int] == new_flags@[k as int]@);
                        assert(new_flags.deep_view()[k as int] == marked[k as int]);
                        assert forall|j: int| 0 <= j < n && j != k implies new_flags.deep_view()[j]
                            == before[j] by {
                            assert(new_flags.deep_view()[j] == new_flags@[j]@);
                        }
                        assert forall|j: int|
                            0 <= j < n implies new_flags.deep_view()[j] == (marked.take(k + 1)
                            + nf0.skip(k + 1))[j] by {
                            if j < k {
                                assert(before[j] == (marked.take(k as int) + nf0.skip(k as int))[j]);
                                assert(before[j] == marked.take(k as int)[j]);
                            } else if j > k {
                                assert(before[j] == (marked.take(k as int) + nf0.skip(k as int))[j]);
                                assert(before[j] == nf0.skip(k as int)[j - k]);
                                assert((marked.take(k + 1) + nf0.skip(k + 1))[j] == nf0.skip(
                                    k + 1,
                                )[j - k - 1]);
                            }
                        }
                        assert(new_flags.deep_view() =~= marked.take(k + 1) + nf0.skip(k + 1));
                    }
                    k = k + 1;
                }
                proof {
                    assert(new_flags.deep_view() =~= marked);
                }
                self.flags = new_flags;
                self.current_lang = new_lang;
                match self.cursor {
                    Some(i) => {
                        if i >= self.flags.len() {
                            self.cursor = if self.flags.len() > 0 {
                                Some(0usize)
                            } else {
                                None
                            };
                        }
                    },
                    None => {},
                }
                proof {
                    assert(self@ =~~= spec_reload(old(self)@, new_lang, nf0));
                }
            },
        }
    }
}

} // verus!
