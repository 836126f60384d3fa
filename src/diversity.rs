//! Signals of command variety and of the kinds of tools in use.
use vstd::prelude::*;
use vstd::string::StringExecFns;
use crate::history::HistoryEntry;
use crate::signals::{scores_bounded, lemma_ratio_bound, Signal, SignalCollection, SignalView, SCORE_ONE};
use crate::stats::{command_names, count_distinct, count_eq, count_equal, count_member};
use crate::stats::{count_members, count_unique, names_of};
use crate::stats::{lemma_count_distinct_bounds, lemma_count_eq_bounds, lemma_count_member_bounds};
use crate::errors::{min_one, one};
use crate::text::{decimal, push_decimal, texts};

verus! {

/// Diversity signal analyzer.
pub struct DiversitySignals;

pub open spec fn git_tools() -> Seq<Seq<char>> {
    seq!["git"@, "gh"@, "hub"@, "tig"@, "lazygit"@]
}

pub open spec fn editor_tools() -> Seq<Seq<char>> {
    seq!["vim"@, "nvim"@, "nano"@, "micro"@, "code"@, "emacs"@, "hx"@]
}

pub open spec fn build_tools() -> Seq<Seq<char>> {
    seq!["cargo"@, "make"@, "npm"@, "yarn"@, "pnpm"@, "go"@, "rustc"@, "gcc"@, "cmake"@]
}

pub open spec fn system_tools() -> Seq<Seq<char>> {
    seq!["systemctl"@, "journalctl"@, "dmesg"@, "htop"@, "top"@, "ps"@, "kill"@]
}

pub open spec fn package_tools() -> Seq<Seq<char>> {
    seq!["pacman"@, "apt"@, "yay"@, "brew"@, "dnf"@, "pip"@, "cargo"@]
}

/// High variety above a ratio of 0.5 of distinct names; low variety below
/// 0.2 on more than 20 entries.
pub open spec fn variety_signals(es: Seq<HistoryEntry>) -> Seq<SignalView> {
    let n = es.len() as int;
    let u = count_distinct(names_of(es));
    if 2 * u > n {
        one(
            "command_diversity_high"@,
            10000 * u / n,
            Some(decimal(u as nat) + " unique commands"@),
        )
    } else if 5 * u < n && n > 20 {
        one("command_diversity_low"@, 10000 * (n - u) / n, Some("Limited command variety"@))
    } else {
        seq![]
    }
}

/// The index of the first name with the highest count among the first `k`.
pub open spec fn top_index(names: Seq<Seq<char>>, k: int) -> int
    decreases k,
{
    if k <= 1 {
        0
    } else {
        let p = top_index(names, k - 1);
        if count_eq(names, names[k - 1]) > count_eq(names, names[p]) {
            k - 1
        } else {
            p
        }
    }
}

/// One tool makes up more than 0.4 of the history (the earliest such name on a tie).
pub open spec fn fixation_signals(es: Seq<HistoryEntry>) -> Seq<SignalView> {
    let n = es.len() as int;
    let names = names_of(es);
    let tool = names[top_index(names, n)];
    let top = count_eq(names, tool);
    if 5 * top > 2 * n {
        one("tool_fixation"@, 10000 * top / n, Some("Focused on: "@ + tool))
    } else {
        seq![]
    }
}

/// Five times the share of `cd`, capped at 1, on at least ten entries, above 0.3.
pub open spec fn switching_signals(es: Seq<HistoryEntry>) -> Seq<SignalView> {
    let n = es.len() as int;
    let c = count_eq(names_of(es), "cd"@);
    if n >= 10 && 50 * c > 3 * n {
        one("context_switching"@, min_one(50000 * c / n), None)
    } else {
        seq![]
    }
}

/// A tool category whose share exceeds 0.1, scored as the share times `scale`, capped at 1.
pub open spec fn category_signal(
    id: Seq<char>,
    count: int,
    n: int,
    scale: int,
    note: Option<Seq<char>>,
) -> Seq<SignalView> {
    if 10 * count > n {
        one(id, min_one(10000 * scale * count / n), note)
    } else {
        seq![]
    }
}

pub open spec fn category_signals(es: Seq<HistoryEntry>) -> Seq<SignalView> {
    let n = es.len() as int;
    let names = names_of(es);
    let g = count_member(names, git_tools());
    category_signal("git_heavy"@, g, n, 3, Some(decimal(g as nat) + " git operations"@))
        + category_signal("editor_focused"@, count_member(names, editor_tools()), n, 4, None)
        + category_signal("build_cycle"@, count_member(names, build_tools()), n, 4, None)
        + category_signal("system_admin"@, count_member(names, system_tools()), n, 4, None)
        + category_signal("package_operations"@, count_member(names, package_tools()), n, 4, None)
}

/// All diversity signals of a history.
pub open spec fn diversity_signals(es: Seq<HistoryEntry>) -> Seq<SignalView> {
    if es.len() == 0 {
        seq![]
    } else {
        variety_signals(es) + fixation_signals(es) + switching_signals(es) + category_signals(es)
    }
}

impl DiversitySignals {
    /// Analyze command diversity in history entries.
    pub fn analyze(entries: &[HistoryEntry]) -> (r: SignalCollection)
        ensures
            r@ == diversity_signals(entries@),
            scores_bounded(r@),
    {
        let mut signals = SignalCollection::new();
        if entries.len() == 0 {
            return signals;
        }
        let names = command_names(entries);
        let n = entries.len() as u128;
        let u = count_unique(&names);
        proof {
            lemma_count_distinct_bounds(names_of(entries@));
            lemma_ratio_bound(10000 * u as int, n as int, 10000);
            lemma_ratio_bound(10000 * (n - u as int), n as int, 10000);
        }
        if 2 * (u as u128) > n {
            let mut note = String::new();
            push_decimal(&mut note, u as u64);
            note.append(" unique commands");
            signals.add(
                Signal::new("command_diversity_high", (10000 * (u as u128) / n) as i64).with_note(
                    note,
                ),
            );
        } else if 5 * (u as u128) < n && n > 20 {
            signals.add(
                Signal::new(
                    "command_diversity_low",
                    (10000 * (n - u as u128) / n) as i64,
                ).with_note(String::from_str("Limited command variety")),
            );
        }
        assert(signals@ =~= variety_signals(entries@));
        match Self::detect_tool_fixation(&names) {
            Some((tool, score)) => {
                let mut note = String::from_str("Focused on: ");
                note.append(tool);
                signals.add(Signal::new("tool_fixation", score as i64).with_note(note));
            },
            None => {},
        }
        assert(signals@ =~= variety_signals(entries@) + fixation_signals(entries@));
        let context_score = Self::detect_context_switching(&names);
        match context_score {
            Some(score) => {
                signals.add(Signal::new("context_switching", score as i64));
            },
            None => {},
        }
        assert(signals@ =~= variety_signals(entries@) + fixation_signals(entries@)
            + switching_signals(entries@));
        let categories = Self::analyze_tool_categories(&names);
        signals.merge(categories);
        assert(signals@ =~= diversity_signals(entries@));
        signals
    }

    /// The most frequent command and its share, where the share exceeds 0.4.
    fn detect_tool_fixation<'a>(names: &Vec<&'a str>) -> (r: Option<(&'a str, u32)>)
        requires
            names@.len() > 0,
        ensures
            ({
                let ns = texts(names@);
                let n = ns.len() as int;
                let tool = ns[top_index(ns, n)];
                let top = count_eq(ns, tool);
                match r {
                    Some((t, s)) => 5 * top > 2 * n && t@ == tool && s as int == 10000 * top / n
                        && s <= 10000,
                    None => !(5 * top > 2 * n),
                }
            }),
    {
        let ghost ns = texts(names@);
        let mut best: usize = 0;
        let mut best_count = count_equal(names, names[0]);
        let mut k: usize = 1;
        while k < names.len()
            invariant
                1 <= k <= names@.len(),
                ns == texts(names@),
                best as int == top_index(ns, k as int),
                0 <= best < k,
                best_count as int == count_eq(ns, ns[best as int]),
            decreases names.len() - k,
        {
            let c = count_equal(names, names[k]);
            if c > best_count {
                best = k;
                best_count = c;
            }
            k = k + 1;
        }
        let n = names.len() as u128;
        proof {
            lemma_count_eq_bounds(ns, ns[best as int]);
            lemma_ratio_bound(10000 * best_count as int, n as int, 10000);
        }
        if 5 * (best_count as u128) > 2 * n {
            Some((names[best], (10000 * (best_count as u128) / n) as u32))
        } else {
            None
        }
    }

    /// Five times the share of `cd`, capped at 1, where it exceeds 0.3 on at least ten entries.
    fn detect_context_switching(names: &Vec<&str>) -> (r: Option<u32>)
        ensures
            ({
                let n = names@.len() as int;
                let c = count_eq(texts(names@), "cd"@);
                match r {
                    Some(s) => n >= 10 && 50 * c > 3 * n && s as int == min_one(50000 * c / n),
                    None => !(n >= 10 && 50 * c > 3 * n),
                }
            }),
    {
        let cd_count = count_equal(names, "cd");
        if names.len() < 10 {
            return None;
        }
        let n = names.len() as u128;
        let c = cd_count as u128;
        if 50 * c > 3 * n {
            let s = 50000 * c / n;
            Some(
                if s > SCORE_ONE as u128 {
                    SCORE_ONE
                } else {
                    s as u32
                },
            )
        } else {
            None
        }
    }

    fn category(id: &str, count: usize, n: usize, scale: u128, note: Option<String>) -> (r:
        SignalCollection)
        requires
            n > 0,
            count <= n,
            scale <= 4,
        ensures
            r@ == category_signal(
                id@,
                count as int,
                n as int,
                scale as int,
                match note {
                    Some(s) => Some(s@),
                    None => None,
                },
            ),
            scores_bounded(r@),
    {
        let mut r = SignalCollection::new();
        let c = count as u128;
        let total = n as u128;
        if 10 * c > total {
            assert(10000 * scale * c <= 40000 * c) by (nonlinear_arith)
                requires
                    scale <= 4,
                    c >= 0,
            ;
            let s = 10000 * scale * c / total;
            let score = if s > SCORE_ONE as u128 {
                SCORE_ONE
            } else {
                s as u32
            };
            let signal = Signal::new(id, score as i64);
            match note {
                Some(text) => r.add(signal.with_note(text)),
                None => r.add(signal),
            }
        }
        assert(r@ =~= category_signal(
            id@,
            count as int,
            n as int,
            scale as int,
            match note {
                Some(s) => Some(s@),
                None => None,
            },
        ));
        r
    }

    /// The category signals: git, editors, build tools, system administration, packages.
    fn analyze_tool_categories(names: &Vec<&str>) -> (r: SignalCollection)
        requires
            names@.len() > 0,
        ensures
            forall|es: Seq<HistoryEntry>|
                names_of(es) == texts(names@) && es.len() == names@.len() ==> r@
                    == #[trigger] category_signals(es),
            scores_bounded(r@),
    {
        let git_commands: [&str; 5] = ["git", "gh", "hub", "tig", "lazygit"];
        let editor_commands: [&str; 7] = ["vim", "nvim", "nano", "micro", "code", "emacs", "hx"];
        let build_commands: [&str; 9] = [
            "cargo", "make", "npm", "yarn", "pnpm", "go", "rustc", "gcc", "cmake",
        ];
        let system_commands: [&str; 7] = [
            "systemctl", "journalctl", "dmesg", "htop", "top", "ps", "kill",
        ];
        let package_commands: [&str; 7] = ["pacman", "apt", "yay", "brew", "dnf", "pip", "cargo"];
        assert(texts(git_commands@) =~= git_tools());
        assert(texts(editor_commands@) =~= editor_tools());
        assert(texts(build_commands@) =~= build_tools());
        assert(texts(system_commands@) =~= system_tools());
        assert(texts(package_commands@) =~= package_tools());
        let n = names.len();
        let ghost ns = texts(names@);
        let git_count = count_members(names, &git_commands);
        let editor_count = count_members(names, &editor_commands);
        let build_count = count_members(names, &build_commands);
        let system_count = count_members(names, &system_commands);
        let package_count = count_members(names, &package_commands);
        proof {
            lemma_count_member_bounds(ns, git_tools());
            lemma_count_member_bounds(ns, editor_tools());
            lemma_count_member_bounds(ns, build_tools());
            lemma_count_member_bounds(ns, system_tools());
            lemma_count_member_bounds(ns, package_tools());
        }
        let mut note = String::new();
        push_decimal(&mut note, git_count as u64);
        note.append(" git operations");
        let mut r = Self::category("git_heavy", git_count, n, 3, Some(note));
        r.merge(Self::category("editor_focused", editor_count, n, 4, None));
        r.merge(Self::category("build_cycle", build_count, n, 4, None));
        r.merge(Self::category("system_admin", system_count, n, 4, None));
        r.merge(Self::category("package_operations", package_count, n, 4, None));
        r
    }
}

} // verus!
