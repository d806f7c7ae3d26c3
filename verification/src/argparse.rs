//! Command-line argument grouping and parameter lookup.
use vstd::prelude::*;
use crate::text::{
    contains, contains_spec, matches_at, copy_str, concat, remove_all, remove_all_spec, str_eq, views,
};

verus! {

/// The two dashes that mark a command-line parameter.
pub open spec fn dashes() -> Seq<char> {
    seq!['-', '-']
}

/// An argument that names a parameter: it holds two dashes somewhere.
pub open spec fn is_flag(a: Seq<char>) -> bool {
    contains_spec(a, dashes())
}

/// A parameter's name: its argument with every pair of dashes removed.
pub open spec fn flag_name(a: Seq<char>) -> Seq<char> {
    remove_all_spec(a, dashes())
}

/// Adds the word `w` to the value `acc`, separated by a space unless `acc` is still empty.
pub open spec fn append_word(acc: Seq<char>, w: Seq<char>) -> Seq<char> {
    if acc.len() == 0 {
        w
    } else {
        acc + seq![' '] + w
    }
}

/// The (parameter, value) groups of the arguments `s`: every flag opens a new group,
/// the arguments that follow it are its value, joined by spaces, and arguments that come
/// before any flag form a group with an empty parameter name.
pub open spec fn groups(s: Seq<Seq<char>>) -> Seq<(Seq<char>, Seq<char>)>
    decreases s.len(),
{
    if s.len() == 0 {
        seq![]
    } else {
        let r = groups(s.drop_last());
        let a = s.last();
        if is_flag(a) {
            r.push((flag_name(a), Seq::<char>::empty()))
        } else if r.len() == 0 {
            seq![(Seq::<char>::empty(), a)]
        } else {
            r.update(r.len() - 1, (r.last().0, append_word(r.last().1, a)))
        }
    }
}

/// The arguments after the program name.
pub open spec fn after_program(args: Seq<Seq<char>>) -> Seq<Seq<char>> {
    if args.len() == 0 {
        args
    } else {
        args.drop_first()
    }
}

/// The views of (parameter, value) pairs.
pub open spec fn pair_views(v: Seq<(String, String)>) -> Seq<(Seq<char>, Seq<char>)> {
    v.map_values(|p: (String, String)| (p.0@, p.1@))
}

/// The value of the first pair whose parameter is `key`.
pub open spec fn first_value(cv: Seq<(String, String)>, key: Seq<char>) -> Option<Seq<char>>
    decreases cv.len(),
{
    if cv.len() == 0 {
        None
    } else if cv[0].0@ == key {
        Some(cv[0].1@)
    } else {
        first_value(cv.drop_first(), key)
    }
}

/// The first pair of each inner list is consulted, in order, until one names `key`;
/// every inner list consulted this way is non-empty.
pub open spec fn heads_reachable(cv: Seq<Vec<(String, String)>>, key: Seq<char>) -> bool
    decreases cv.len(),
{
    cv.len() == 0 || (cv[0]@.len() > 0 && (cv[0]@[0].0@ == key || heads_reachable(cv.drop_first(), key)))
}

/// The value of the first inner list whose first pair names `key`.
pub open spec fn first_head_value(cv: Seq<Vec<(String, String)>>, key: Seq<char>) -> Option<Seq<char>>
    decreases cv.len(),
{
    if cv.len() == 0 {
        None
    } else if cv[0]@.len() > 0 && cv[0]@[0].0@ == key {
        Some(cv[0]@[0].1@)
    } else {
        first_head_value(cv.drop_first(), key)
    }
}

/// The word `blank`, given for a parameter that is present without a value.
pub open spec fn blank() -> Seq<char> {
    seq!['b', 'l', 'a', 'n', 'k']
}

/// The value of the parameter `value_to_find` in the first pair of the first inner list
/// that names it: `blank` where that value is empty, and the empty string where no list names it.
pub fn get_param_value(command_vector: Vec<Vec<(String, String)>>, value_to_find: &str) -> (res: String)
    requires
        heads_reachable(command_vector@, value_to_find@),
    ensures
        res@ == match first_head_value(command_vector@, value_to_find@) {
            Some(v) => if v.len() == 0 { blank() } else { v },
            None => Seq::<char>::empty(),
        },
{
    let n = command_vector.len();
    assert(command_vector@.skip(0) == command_vector@);
    for i in 0..n
        invariant
            n == command_vector@.len(),
            heads_reachable(command_vector@.skip(i as int), value_to_find@),
            first_head_value(command_vector@, value_to_find@) == first_head_value(
                command_vector@.skip(i as int),
                value_to_find@,
            ),
    {
        let ghost rest = command_vector@.skip(i as int);
        assert(rest[0] == command_vector@[i as int]);
        assert(rest.drop_first() =~= command_vector@.skip(i + 1));
        let command = &command_vector[i];
        if str_eq(command[0].0.as_str(), value_to_find) {
            if command[0].1.as_str().is_empty() {
                let res = String::from_str("blank");
                proof {
                    reveal_strlit("blank");
                }
                return res;
            } else {
                return copy_str(command[0].1.as_str());
            }
        }
    }
    String::new()
}

/// The value of the first pair whose parameter is `argument_to_find`, if any.
pub fn get_param_value_new<'v>(command_vector: &'v [(String, String)], argument_to_find: &str) -> (res: Option<&'v str>)
    ensures
        match res {
            Some(r) => first_value(command_vector@, argument_to_find@) == Some(r@),
            None => first_value(command_vector@, argument_to_find@) is None,
        },
{
    assert(command_vector@.skip(0) == command_vector@);
    for i in 0..command_vector.len()
        invariant
            first_value(command_vector@, argument_to_find@) == first_value(
                command_vector@.skip(i as int),
                argument_to_find@,
            ),
    {
        let ghost rest = command_vector@.skip(i as int);
        assert(rest[0] == command_vector@[i as int]);
        assert(rest.drop_first() =~= command_vector@.skip(i + 1));
        if str_eq(command_vector[i].0.as_str(), argument_to_find) {
            return Some(command_vector[i].1.as_str());
        }
    }
    assert(command_vector@.skip(command_vector@.len() as int).len() == 0);
    None
}

/// The help text for the accepted parameters: one line per parameter, its name and its
/// description, each after a tab.
pub open spec fn help_text(params: Seq<(&str, &str)>) -> Seq<char>
    decreases params.len(),
{
    if params.len() == 0 {
        Seq::empty()
    } else {
        help_text(params.drop_last()) + "\t"@ + params.last().0@ + "\t"@ + params.last().1@ + "\n"@
    }
}

/// The help text listing the accepted parameters `params` (name, description).
pub fn generate_help(params: &[(&str, &str)]) -> (res: String)
    ensures
        res@ == help_text(params@),
{
    let mut res = String::new();
    assert(params@.take(0) =~= Seq::<(&str, &str)>::empty());
    for i in 0..params.len()
        invariant
            res@ == help_text(params@.take(i as int)),
    {
        assert(params@.take(i + 1).drop_last() =~= params@.take(i as int));
        let (name, description) = params[i];
        res.append("\t");
        res.append(name);
        res.append("\t");
        res.append(description);
        res.append("\n");
    }
    assert(params@.take(params@.len() as int) =~= params@);
    res
}

/// The grouping is complete when no argument is pending: before the first argument,
/// at the end, or when the next argument is a flag.
pub open spec fn flushed(args: Seq<Seq<char>>, i: int) -> bool {
    i <= 1 || i >= args.len() || is_flag(args[i])
}

proof fn lemma_groups_step(s: Seq<Seq<char>>, i: int)
    requires
        1 <= i < s.len(),
    ensures
        s.subrange(1, i + 1).drop_last() == s.subrange(1, i),
        s.subrange(1, i + 1).last() == s[i],
{
    assert(s.subrange(1, i + 1).drop_last() =~= s.subrange(1, i));
}

/// Groups the arguments after the program name into (parameter, value) pairs: every argument
/// that holds two dashes opens a new group named by it without its dashes, and the arguments
/// that follow it, up to the next such argument, form its value, joined by single spaces.
pub fn parse_arguments(args: &[String]) -> (res: Vec<(String, String)>)
    ensures
        pair_views(res@) == groups(after_program(views(args@))),
{
    let ghost a = views(args@);
    let mut arguments: Vec<(String, String)> = Vec::new();
    let mut arg_command = String::new();
    let mut arg_command_value = String::new();
    proof {
        reveal_strlit("--");
        reveal_strlit(" ");
    }
    if args.len() == 0 {
        assert(pair_views(arguments@) =~= Seq::<(Seq<char>, Seq<char>)>::empty());
        return arguments;
    }
    let mut index: usize = 1;
    assert(a.subrange(1, 1) =~= Seq::<Seq<char>>::empty());
    while index < args.len()
        invariant
            a == views(args@),
            "--"@ == dashes(),
            " "@ == seq![' '],
            1 <= index <= args.len(),
            ({
                let g = groups(a.subrange(1, index as int));
                if flushed(a, index as int) {
                    &&& pair_views(arguments@) == g
                    &&& arg_command@.len() == 0
                    &&& arg_command_value@.len() == 0
                } else {
                    &&& g.len() > 0
                    &&& pair_views(arguments@) == g.drop_last()
                    &&& (arg_command@, arg_command_value@) == g.last()
                }
            }),
        decreases args.len() - index,
    {
        let ghost g = groups(a.subrange(1, index as int));
        proof {
            lemma_groups_step(a, index as int);
        }
        let ghost g2 = groups(a.subrange(1, index + 1));
        let argument = args[index].as_str();
        assert(argument@ == a[index as int]);
        if contains(argument, "--") {
            assert(flushed(a, index as int));
            if arg_command.as_str().is_empty() && arg_command_value.as_str().is_empty() {
                arg_command = remove_all(argument, "--");
            }
            assert(g2 == g.push((flag_name(a[index as int]), Seq::<char>::empty())));
        } else if arg_command_value.as_str().is_empty() {
            arg_command_value = copy_str(argument);
            if index == 1 {
                assert(g2 == seq![(Seq::<char>::empty(), a[index as int])]);
            } else {
                assert(!flushed(a, index as int));
            }
        } else {
            let spaced = concat(arg_command_value.as_str(), " ");
            arg_command_value = concat(spaced.as_str(), argument);
            assert(!flushed(a, index as int));
        }
        assert(pair_views(arguments@) == g2.drop_last() && (arg_command@, arg_command_value@) == g2.last()) by {
            assert(pair_views(arguments@) =~= g2.drop_last());
        }
        if index == args.len() - 1 || contains(args[index + 1].as_str(), "--") {
            let ghost before = arguments@;
            arguments.push((arg_command, arg_command_value));
            arg_command = String::new();
            arg_command_value = String::new();
            assert(pair_views(arguments@) =~= g2) by {
                assert(pair_views(arguments@) =~= pair_views(before).push(g2.last()));
            }
        } else {
            assert(views(args@)[index + 1] == args@[index + 1]@);
        }
        index = index + 1;
    }
    assert(a.subrange(1, a.len() as int) =~= after_program(a));
    arguments
}

/// Removing every pair of dashes leaves text that starts as `t` started, where `t` does not
/// start with a dash.
proof fn lemma_remove_dashes_first(t: Seq<char>)
    requires
        t.len() > 0,
        t[0] != '-',
    ensures
        flag_name(t).len() > 0,
        flag_name(t)[0] == t[0],
{
    assert(!matches_at(t, dashes(), 0)) by {
        if matches_at(t, dashes(), 0) {
            assert(t.subrange(0, 2)[0] == t[0]);
        }
    }
}

/// Removing every pair of dashes leaves no two dashes in a row.
proof fn lemma_remove_dashes_complete(s: Seq<char>)
    ensures
        !contains_spec(flag_name(s), dashes()),
    decreases s.len(),
{
    let d = dashes();
    if s.len() == 0 {
        assert forall|i: int| !matches_at(flag_name(s), d, i) by {}
    } else if matches_at(s, d, 0) {
        lemma_remove_dashes_complete(s.skip(2));
    } else {
        let t = s.skip(1);
        lemma_remove_dashes_complete(t);
        let r = flag_name(t);
        let out = flag_name(s);
        assert(out == seq![s[0]] + r);
        if s[0] == '-' && t.len() > 0 {
            assert(t[0] != '-') by {
                if t[0] == '-' {
                    assert(s.subrange(0, 2) =~= d);
                }
            }
            lemma_remove_dashes_first(t);
        }
        assert forall|i: int| !matches_at(out, d, i) by {
            if matches_at(out, d, i) {
                if i == 0 {
                    assert(out.subrange(0, 2)[0] == out[0]);
                    assert(out.subrange(0, 2)[1] == out[1]);
                    if t.len() == 0 {
                        assert(out.len() == 1);
                    } else {
                        assert(out[1] == r[0]);
                    }
                } else {
                    assert(out.subrange(i, i + 2) =~= r.subrange(i - 1, i + 1));
                    assert(matches_at(r, d, i - 1));
                }
            }
        }
    }
}

/// A parameter name never holds two dashes in a row: every pair of dashes in its argument
/// is removed.
pub proof fn parameter_names_have_no_dashes(args: Seq<Seq<char>>, i: int)
    requires
        0 <= i < groups(after_program(args)).len(),
    ensures
        !contains_spec(groups(after_program(args))[i].0, dashes()),
{
    lemma_group_names_clean(after_program(args));
}

proof fn lemma_group_names_clean(s: Seq<Seq<char>>)
    ensures
        forall|i: int| 0 <= i < groups(s).len() ==> !contains_spec(#[trigger] groups(s)[i].0, dashes()),
    decreases s.len(),
{
    if s.len() > 0 {
        lemma_group_names_clean(s.drop_last());
        let a = s.last();
        lemma_remove_dashes_complete(a);
        assert(!contains_spec(Seq::<char>::empty(), dashes())) by {
            assert forall|i: int| !matches_at(Seq::<char>::empty(), dashes(), i) by {}
        }
        let r = groups(s.drop_last());
        let g = groups(s);
        assert forall|i: int| 0 <= i < g.len() implies !contains_spec(#[trigger] g[i].0, dashes()) by {
            if is_flag(a) {
                if i < r.len() {
                    assert(g[i] == r[i]);
                }
            } else if r.len() == 0 {
            } else {
                if i < r.len() - 1 {
                    assert(g[i] == r[i]);
                } else {
                    assert(g[i].0 == r[r.len() - 1].0);
                }
            }
        }
    }
}

/// Every argument that holds two dashes opens a group named by it without its dashes.
pub proof fn flags_open_groups(s: Seq<Seq<char>>, i: int)
    requires
        0 <= i < s.len(),
        is_flag(s[i]),
    ensures
        exists|j: int| 0 <= j < groups(s).len() && (#[trigger] groups(s)[j]).0 == flag_name(s[i]),
    decreases s.len(),
{
    let g = groups(s);
    if i == s.len() - 1 {
        assert(g[g.len() - 1].0 == flag_name(s[i]));
    } else {
        let t = s.drop_last();
        let r = groups(t);
        assert(t[i] == s[i]);
        flags_open_groups(t, i);
        let j = choose|j: int| 0 <= j < r.len() && (#[trigger] r[j]).0 == flag_name(t[i]);
        assert(g[j].0 == r[j].0);
    }
}

/// Arguments that begin with a flag are grouped on their own: after other arguments, their
/// groups follow those of the others unchanged.
pub proof fn groups_split_at_flag(a: Seq<Seq<char>>, b: Seq<Seq<char>>)
    requires
        b.len() > 0,
        is_flag(b[0]),
    ensures
        groups(a + b) == groups(a) + groups(b),
    decreases b.len(),
{
    let ab = a + b;
    if b.len() == 1 {
        assert(ab.drop_last() =~= a);
        assert(ab.last() == b[0]);
        assert(b.drop_last() =~= Seq::<Seq<char>>::empty());
        assert(b.last() == b[0]);
        let x = (flag_name(b[0]), Seq::<char>::empty());
        assert(groups(b.drop_last()) =~= Seq::<(Seq<char>, Seq<char>)>::empty());
        assert(groups(b) == groups(b.drop_last()).push(x));
        assert(groups(ab) == groups(a).push(x));
        assert(groups(a).push(x) =~= groups(a) + groups(b));
    } else {
        let b0 = b.drop_last();
        assert(b0[0] == b[0]);
        groups_split_at_flag(a, b0);
        assert(ab.drop_last() =~= a + b0);
        assert(ab.last() == b.last());
        let r = groups(a + b0);
        let rb = groups(b0);
        assert(rb.len() > 0);
        assert(r.len() > 0);
        assert(r.last() == rb.last());
        let ga = groups(a);
        let x = b.last();
        assert(r == ga + rb);
        if is_flag(x) {
            assert(groups(ab) == r.push((flag_name(x), Seq::<char>::empty())));
            assert(groups(b) == rb.push((flag_name(x), Seq::<char>::empty())));
            assert(r.push((flag_name(x), Seq::<char>::empty())) =~= ga + rb.push((flag_name(x), Seq::<char>::empty())));
        } else {
            let e = (r.last().0, append_word(r.last().1, x));
            assert(groups(ab) == r.update(r.len() - 1, e));
            assert(groups(b) == rb.update(rb.len() - 1, e));
            assert(r.update(r.len() - 1, e) =~= ga + rb.update(rb.len() - 1, e));
        }
    }
}

/// Adding a word without two dashes in a row to a value without them gives a value without
/// them: the space between the two parts cannot be a dash.
proof fn lemma_append_word_clean(acc: Seq<char>, w: Seq<char>)
    requires
        !contains_spec(acc, dashes()),
        !contains_spec(w, dashes()),
    ensures
        !contains_spec(append_word(acc, w), dashes()),
{
    let d = dashes();
    if acc.len() > 0 {
        let out = acc + seq![' '] + w;
        let n = acc.len() as int;
        assert forall|i: int| !matches_at(out, d, i) by {
            if matches_at(out, d, i) {
                assert(out[i] == out.subrange(i, i + 2)[0]);
                assert(out[i + 1] == out.subrange(i, i + 2)[1]);
                if i + 1 < n {
                    assert(acc.subrange(i, i + 2) =~= out.subrange(i, i + 2));
                    assert(matches_at(acc, d, i));
                } else if i + 1 == n {
                    assert(out[i + 1] == ' ');
                } else if i == n {
                    assert(out[i] == ' ');
                } else {
                    assert(w.subrange(i - n - 1, i - n + 1) =~= out.subrange(i, i + 2));
                    assert(matches_at(w, d, i - n - 1));
                }
            }
        }
    }
}

proof fn lemma_group_values_clean(s: Seq<Seq<char>>)
    ensures
        forall|i: int| 0 <= i < groups(s).len() ==> !contains_spec(#[trigger] groups(s)[i].1, dashes()),
    decreases s.len(),
{
    if s.len() > 0 {
        lemma_group_values_clean(s.drop_last());
        let a = s.last();
        let r = groups(s.drop_last());
        let g = groups(s);
        assert(!contains_spec(Seq::<char>::empty(), dashes())) by {
            assert forall|i: int| !matches_at(Seq::<char>::empty(), dashes(), i) by {}
        }
        assert forall|i: int| 0 <= i < g.len() implies !contains_spec(#[trigger] g[i].1, dashes()) by {
            if is_flag(a) {
                if i < r.len() {
                    assert(g[i] == r[i]);
                }
            } else if r.len() == 0 {
            } else if i < r.len() - 1 {
                assert(g[i] == r[i]);
            } else {
                lemma_append_word_clean(r.last().1, a);
            }
        }
    }
}

/// A parameter's value never holds two dashes in a row: the arguments that hold them open
/// groups of their own instead of joining a value.
pub proof fn parameter_values_have_no_dashes(args: Seq<Seq<char>>, i: int)
    requires
        0 <= i < groups(after_program(args)).len(),
    ensures
        !contains_spec(groups(after_program(args))[i].1, dashes()),
{
    lemma_group_values_clean(after_program(args));
}

/// A group with a name got it from an argument that holds two dashes.
proof fn lemma_group_names_from_flags(s: Seq<Seq<char>>, j: int)
    requires
        0 <= j < groups(s).len(),
        groups(s)[j].0.len() > 0,
    ensures
        exists|i: int| 0 <= i < s.len() && is_flag(#[trigger] s[i]) && flag_name(s[i]) == groups(s)[j].0,
    decreases s.len(),
{
    let t = s.drop_last();
    let r = groups(t);
    let g = groups(s);
    let a = s.last();
    if is_flag(a) && j == r.len() {
        assert(s[s.len() - 1] == a);
    } else {
        if is_flag(a) {
            assert(g[j] == r[j]);
        } else if r.len() > 0 {
            assert(g[j].0 == r[j].0);
        }
        lemma_group_names_from_flags(t, j);
        let i = choose|i: int| 0 <= i < t.len() && is_flag(#[trigger] t[i]) && flag_name(t[i]) == r[j].0;
        assert(s[i] == t[i]);
    }
}

/// The first pair named `k` exists exactly when some pair is named `k`.
proof fn lemma_first_value_some(cv: Seq<(String, String)>, k: Seq<char>)
    ensures
        first_value(cv, k) is Some <==> exists|j: int| 0 <= j < cv.len() && (#[trigger] cv[j]).0@ == k,
    decreases cv.len(),
{
    if cv.len() > 0 {
        let rest = cv.drop_first();
        lemma_first_value_some(rest, k);
        if cv[0].0@ != k {
            if exists|j: int| 0 <= j < rest.len() && (#[trigger] rest[j]).0@ == k {
                let j = choose|j: int| 0 <= j < rest.len() && (#[trigger] rest[j]).0@ == k;
                assert(cv[j + 1] == rest[j]);
            }
            if exists|j: int| 0 <= j < cv.len() && (#[trigger] cv[j]).0@ == k {
                let j = choose|j: int| 0 <= j < cv.len() && (#[trigger] cv[j]).0@ == k;
                assert(rest[j - 1] == cv[j]);
            }
        }
    }
}

/// A parameter is found by presence: where `cv` holds the groups of the arguments `args`, as
/// `parse_arguments` gives them, a non-empty name `k` has a value in `cv` exactly when some
/// argument after the program name holds two dashes and is `k` once its dashes are removed.
pub proof fn parameter_found_iff_flag_given(args: Seq<Seq<char>>, cv: Seq<(String, String)>, k: Seq<char>)
    requires
        pair_views(cv) == groups(after_program(args)),
        k.len() > 0,
    ensures
        first_value(cv, k) is Some <==> exists|i: int| 1 <= i < args.len() && is_flag(#[trigger] args[i]) && flag_name(args[i]) == k,
{
    lemma_first_value_some(cv, k);
    let s = after_program(args);
    let g = groups(s);
    assert(g.len() == cv.len());
    if first_value(cv, k) is Some {
        let j = choose|j: int| 0 <= j < cv.len() && (#[trigger] cv[j]).0@ == k;
        assert(g[j] == pair_views(cv)[j]);
        lemma_group_names_from_flags(s, j);
        let i = choose|i: int| 0 <= i < s.len() && is_flag(#[trigger] s[i]) && flag_name(s[i]) == g[j].0;
        assert(args[i + 1] == s[i]);
    }
    if exists|i: int| 1 <= i < args.len() && is_flag(#[trigger] args[i]) && flag_name(args[i]) == k {
        let i = choose|i: int| 1 <= i < args.len() && is_flag(#[trigger] args[i]) && flag_name(args[i]) == k;
        assert(s[i - 1] == args[i]);
        flags_open_groups(s, i - 1);
        let j = choose|j: int| 0 <= j < g.len() && (#[trigger] g[j]).0 == flag_name(s[i - 1]);
        assert(g[j] == pair_views(cv)[j]);
        assert(cv[j].0@ == k);
    }
}

} // verus!
