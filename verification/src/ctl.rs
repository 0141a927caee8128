//! Decisions of the `routerctl` operator tool: which models count as
//! connected, how a default model is picked, and how setup edits the
//! provider list.
use vstd::prelude::*;
use crate::num::{parse_unsigned, parse_usize};
use crate::text::{eq_ascii_ci, eq_ignore_ascii_case, has_prefix, starts_with, str_eq, trim, trim_seq};

verus! {

/// Routing aliases: still valid request targets, but not connected models.
pub open spec fn is_virtual_spec(name: Seq<char>) -> bool {
    has_prefix(name, "router:"@) || name == "fast"@ || name == "hard"@ || name == "auto"@
}

pub fn is_virtual_model(name: &str) -> (b: bool)
    ensures
        b == is_virtual_spec(name@),
{
    starts_with(name, "router:") || str_eq(name, "fast") || str_eq(name, "hard") || str_eq(name, "auto")
}

pub open spec fn connected_spec(models: Seq<Seq<char>>) -> Seq<Seq<char>>
    decreases models.len(),
{
    if models.len() == 0 {
        Seq::empty()
    } else {
        connected_spec(models.drop_last()) + if is_virtual_spec(models.last()) {
            Seq::empty()
        } else {
            seq![models.last()]
        }
    }
}

pub proof fn lemma_connected_concat(a: Seq<Seq<char>>, b: Seq<Seq<char>>)
    ensures
        connected_spec(a + b) == connected_spec(a) + connected_spec(b),
    decreases b.len(),
{
    if b.len() == 0 {
        assert(a + b =~= a);
        assert(connected_spec(a) + connected_spec(b) =~= connected_spec(a));
    } else {
        lemma_connected_concat(a, b.drop_last());
        assert((a + b).drop_last() =~= a + b.drop_last());
        assert((a + b).last() == b.last());
        let tail = if is_virtual_spec(b.last()) {
            Seq::<Seq<char>>::empty()
        } else {
            seq![b.last()]
        };
        assert(connected_spec(a) + connected_spec(b.drop_last()) + tail =~= connected_spec(a) + (
        connected_spec(b.drop_last()) + tail));
    }
}

/// The connected provider models, in order, with routing aliases left out.
pub fn connected_models(models: &Vec<String>) -> (r: Vec<String>)
    ensures
        r@.map_values(|s: String| s@) == connected_spec(models@.map_values(|s: String| s@)),
{
    let mut r: Vec<String> = Vec::new();
    let mut i: usize = 0;
    while i < models.len()
        invariant
            i <= models@.len(),
            r@.map_values(|s: String| s@) == connected_spec(models@.take(i as int).map_values(|s: String| s@)),
        decreases models.len() - i,
    {
        assert(models@.take(i + 1).map_values(|s: String| s@).drop_last() =~= models@.take(i as int).map_values(|s: String| s@));
        let ghost before = r@;
        if !is_virtual_model(models[i].as_str()) {
            r.push(models[i].clone());
            assert(r@.map_values(|s: String| s@) =~= before.map_values(|s: String| s@) + seq![models@[i as int]@]);
        } else {
            assert(r@.map_values(|s: String| s@) =~= before.map_values(|s: String| s@) + Seq::<Seq<char>>::empty());
        }
        i = i + 1;
    }
    assert(models@.take(models@.len() as int) =~= models@);
    r
}

/// Index of the first option whose model name equals `want` up to ASCII case.
pub open spec fn first_ci_match(names: Seq<Seq<char>>, want: Seq<char>, from: int) -> Option<int>
    decreases names.len() - from,
{
    if from < 0 || from >= names.len() {
        None
    } else if eq_ascii_ci(names[from], want) {
        Some(from)
    } else {
        first_ci_match(names, want, from + 1)
    }
}

/// A match found is an in-range index whose name matches.
pub proof fn lemma_first_ci_match_range(names: Seq<Seq<char>>, want: Seq<char>, from: int)
    ensures
        first_ci_match(names, want, from) matches Some(k) ==> 0 <= from <= k < names.len()
            && eq_ascii_ci(names[k], want),
    decreases names.len() - from,
{
    if 0 <= from < names.len() && !eq_ascii_ci(names[from], want) {
        lemma_first_ci_match_range(names, want, from + 1);
    }
}

/// The model names of (provider, model) options.
pub open spec fn option_names(options: Seq<(String, String)>) -> Seq<Seq<char>> {
    options.map_values(|p: (String, String)| p.1@)
}

/// The model that a (provider, model) list names, matched without ASCII case;
/// the list's own spelling is returned.
pub fn find_model_ci(options: &Vec<(String, String)>, want: &str) -> (r: Option<String>)
    ensures
        match first_ci_match(option_names(options@), want@, 0) {
            Some(k) => r matches Some(m) && m@ == options@[k].1@,
            None => r is None,
        },
{
    let mut i: usize = 0;
    while i < options.len()
        invariant
            i <= options@.len(),
            first_ci_match(option_names(options@), want@, i as int) == first_ci_match(
                option_names(options@),
                want@,
                0,
            ),
        decreases options.len() - i,
    {
        assert(option_names(options@)[i as int] == options@[i as int].1@);
        if eq_ignore_ascii_case(options[i].1.as_str(), want) {
            return Some(options[i].1.clone());
        }
        i = i + 1;
    }
    None
}

/// The default model an operator's answer picks: nothing for an empty answer,
/// `skip` or `n`; the n-th option for a number from 1 to the number of
/// options, nothing for any other number; else the option named, without
/// ASCII case.
pub open spec fn default_pick_spec(input: Seq<char>, names: Seq<Seq<char>>) -> Option<Seq<char>> {
    let answer = trim_seq(input);
    if answer.len() == 0 || eq_ascii_ci(answer, "skip"@) || eq_ascii_ci(answer, "n"@) {
        None
    } else {
        match parse_unsigned(answer, usize::MAX as nat) {
            Some(n) => if 1 <= n <= names.len() {
                Some(names[n - 1])
            } else {
                None
            },
            None => match first_ci_match(names, answer, 0) {
                Some(k) => Some(names[k]),
                None => None,
            },
        }
    }
}

pub fn parse_default_pick(input: &str, options: &Vec<(String, String)>) -> (r: Option<String>)
    ensures
        match default_pick_spec(input@, option_names(options@)) {
            Some(m) => r matches Some(s) && s@ == m,
            None => r is None,
        },
{
    let answer = trim(input);
    if answer.as_str().is_empty() || eq_ignore_ascii_case(answer.as_str(), "skip") || eq_ignore_ascii_case(
        answer.as_str(),
        "n",
    ) {
        return None;
    }
    assert(option_names(options@).len() == options@.len());
    match parse_usize(answer.as_str()) {
        Some(n) => {
            if n >= 1 && n <= options.len() {
                assert(option_names(options@)[n - 1] == options@[n - 1].1@);
                Some(options[n - 1].1.clone())
            } else {
                None
            }
        },
        None => {
            proof {
                lemma_first_ci_match_range(option_names(options@), answer@, 0);
            }
            find_model_ci(options, answer.as_str())
        },
    }
}

} // verus!
