use vstd::prelude::*;
use crate::env_vars::{root_of, spec_plan_ok, EnvVarSpec, WriteMode};

verus! {

/// The right-hand side written to the profile: `"VALUE"`, or
/// `"VALUE:$NAME"` for a path list, so the new segment comes first.
pub open spec fn spec_rendered(s: EnvVarSpec) -> Seq<char> {
    match s.mode {
        WriteMode::SetIfAbsent => "\""@ + s.value@ + "\""@,
        WriteMode::AppendPath => "\""@ + s.value@ + ":$"@ + s.name@ + "\""@,
    }
}

/// What begins every definition of `name`: `export NAME=`.
pub open spec fn definition_prefix(name: Seq<char>) -> Seq<char> {
    "export "@ + name + "="@
}

/// The profile line that defines `s`.
pub open spec fn spec_definition_line(s: EnvVarSpec) -> Seq<char> {
    definition_prefix(s.name@) + spec_rendered(s)
}

/// `s` begins with `p`.
pub open spec fn is_prefix(p: Seq<char>, s: Seq<char>) -> bool {
    p.len() <= s.len() && s.subrange(0, p.len() as int) == p
}

/// A space or a tab.
pub open spec fn is_blank(c: char) -> bool {
    c == ' ' || c == '\t'
}

/// `s` without its leading blanks.
pub open spec fn skip_blanks(s: Seq<char>) -> Seq<char>
    decreases s.len(),
{
    if s.len() > 0 && is_blank(s[0]) {
        skip_blanks(s.drop_first())
    } else {
        s
    }
}

/// `line` defines the variable `name`: after any leading blanks it starts
/// with `export NAME=` or with `NAME=`.
pub open spec fn line_defines(line: Seq<char>, name: Seq<char>) -> bool {
    let t = skip_blanks(line);
    is_prefix(definition_prefix(name), t) || is_prefix(name + "="@, t)
}

/// The profile's lines already hold what `s` would write: any definition of
/// the name for a plain variable, the very same line for a path list.
pub open spec fn spec_present(profile: Seq<Seq<char>>, s: EnvVarSpec) -> bool {
    match s.mode {
        WriteMode::SetIfAbsent => exists|i: int|
            0 <= i < profile.len() && line_defines(#[trigger] profile[i], s.name@),
        WriteMode::AppendPath => exists|i: int|
            0 <= i < profile.len() && #[trigger] profile[i] == spec_definition_line(s),
    }
}

/// The profile already holds what `s` would write: any definition of the
/// name for a plain variable, the very same line for a path list.
pub open spec fn spec_has_definition(profile: Seq<String>, s: EnvVarSpec) -> bool {
    match s.mode {
        WriteMode::SetIfAbsent => exists|i: int|
            0 <= i < profile.len() && line_defines(#[trigger] profile[i]@, s.name@),
        WriteMode::AppendPath => exists|i: int|
            0 <= i < profile.len() && #[trigger] profile[i]@ == spec_definition_line(s),
    }
}

/// The profile's lines after persisting `s`, as views.
pub open spec fn spec_persist(profile: Seq<Seq<char>>, s: EnvVarSpec) -> Seq<Seq<char>> {
    if spec_present(profile, s) {
        profile
    } else {
        profile.push(spec_definition_line(s))
    }
}

/// The lines of a profile, as views.
pub open spec fn lines_view(v: Seq<String>) -> Seq<Seq<char>> {
    v.map_values(|l: String| l@)
}

/// The right-hand side of the definition of `s`.
pub fn rendered_value(s: &EnvVarSpec) -> (r: String)
    ensures
        r@ == spec_rendered(*s),
{
    let mut r = String::from_str("\"");
    r.append(s.value.as_str());
    match s.mode {
        WriteMode::SetIfAbsent => {},
        WriteMode::AppendPath => {
            r.append(":$");
            r.append(s.name.as_str());
        },
    }
    r.append("\"");
    r
}

/// The profile line that defines `s`: `export NAME=` and the rendered value.
pub fn definition_line(s: &EnvVarSpec) -> (r: String)
    ensures
        r@ == spec_definition_line(*s),
{
    let mut r = String::from_str("export ");
    r.append(s.name.as_str());
    r.append("=");
    let v = rendered_value(s);
    r.append(v.as_str());
    r
}

fn starts_with(s: &str, p: &str) -> (r: bool)
    ensures
        r == is_prefix(p@, s@),
{
    let n = p.unicode_len();
    let m = s.unicode_len();
    if n > m {
        return false;
    }
    let mut i: usize = 0;
    while i < n
        invariant
            n == p@.len(),
            m == s@.len(),
            n <= m,
            i <= n,
            forall|j: int| 0 <= j < i ==> s@[j] == p@[j],
        decreases n - i,
    {
        if s.get_char(i) != p.get_char(i) {
            assert(s@.subrange(0, n as int)[i as int] != p@[i as int]);
            return false;
        }
        i += 1;
    }
    assert(s@.subrange(0, n as int) =~= p@);
    true
}

/// Whether `line` defines the variable `name`.
pub fn defines(line: &str, name: &str) -> (r: bool)
    ensures
        r == line_defines(line@, name@),
{
    let n = line.unicode_len();
    let mut k: usize = 0;
    assert(line@.subrange(0, n as int) =~= line@);
    while k < n && (line.get_char(k) == ' ' || line.get_char(k) == '\t')
        invariant
            k <= n,
            n == line@.len(),
            skip_blanks(line@) == skip_blanks(line@.subrange(k as int, n as int)),
        decreases n - k,
    {
        proof {
            let t = line@.subrange(k as int, n as int);
            assert(t.drop_first() =~= line@.subrange(k + 1, n as int));
        }
        k += 1;
    }
    let t = line.substring_char(k, n);
    let mut with_export = String::from_str("export ");
    with_export.append(name);
    with_export.append("=");
    let mut bare = String::from_str(name);
    bare.append("=");
    starts_with(t, with_export.as_str()) || starts_with(t, bare.as_str())
}

/// Whether the profile already holds what `s` would write.
pub fn has_definition(profile: &Vec<String>, s: &EnvVarSpec) -> (r: bool)
    ensures
        r == spec_has_definition(profile@, *s),
{
    let line = definition_line(s);
    let mut i: usize = 0;
    while i < profile.len()
        invariant
            i <= profile@.len(),
            line@ == spec_definition_line(*s),
            forall|j: int|
                0 <= j < i ==> match s.mode {
                    WriteMode::SetIfAbsent => !line_defines(#[trigger] profile@[j]@, s.name@),
                    WriteMode::AppendPath => profile@[j]@ != spec_definition_line(*s),
                },
        decreases profile@.len() - i,
    {
        let found = match s.mode {
            WriteMode::SetIfAbsent => defines(profile[i].as_str(), s.name.as_str()),
            WriteMode::AppendPath => profile[i] == line,
        };
        if found {
            return true;
        }
        i += 1;
    }
    false
}

/// Persists `s` into the profile's lines: a definition line is appended
/// unless the profile already holds it, so persisting twice changes nothing.
pub fn persist(profile: &Vec<String>, s: &EnvVarSpec) -> (r: Vec<String>)
    ensures
        lines_view(r@) == spec_persist(lines_view(profile@), *s),
{
    let present = has_definition(profile, s);
    let mut r = profile.clone();
    proof {
        assert(lines_view(r@) =~= lines_view(profile@));
        assert(present == spec_has_definition(profile@, *s));
        let pv = lines_view(profile@);
        match s.mode {
            WriteMode::SetIfAbsent => {
                if present {
                    let i = choose|i: int|
                        0 <= i < profile@.len() && line_defines(#[trigger] profile@[i]@, s.name@);
                    assert(pv[i] == profile@[i]@);
                } else {
                    assert forall|i: int| 0 <= i < pv.len() implies !line_defines(
                        #[trigger] pv[i],
                        s.name@,
                    ) by {
                        assert(pv[i] == profile@[i]@);
                    }
                }
            },
            WriteMode::AppendPath => {
                if present {
                    let i = choose|i: int|
                        0 <= i < profile@.len() && #[trigger] profile@[i]@
                            == spec_definition_line(*s);
                    assert(pv[i] == profile@[i]@);
                } else {
                    assert forall|i: int| 0 <= i < pv.len() implies #[trigger] pv[i]
                        != spec_definition_line(*s) by {
                        assert(pv[i] == profile@[i]@);
                    }
                }
            },
        }
    }
    if !present {
        let line = definition_line(s);
        r.push(line);
        proof {
            assert(lines_view(r@) =~= lines_view(profile@).push(spec_definition_line(*s)));
        }
    }
    r
}

/// The definition line of `s` defines the name of `s`.
pub proof fn lemma_definition_line_defines(s: EnvVarSpec)
    ensures
        line_defines(spec_definition_line(s), s.name@),
{
    reveal_strlit("export ");
    let line = spec_definition_line(s);
    let p = definition_prefix(s.name@);
    assert(line[0] == 'e');
    assert(skip_blanks(line) == line);
    assert(line.subrange(0, p.len() as int) =~= p);
}

/// After persisting `s`, the profile holds what `s` writes.
pub proof fn lemma_persisted_present(profile: Seq<Seq<char>>, s: EnvVarSpec)
    ensures
        spec_present(spec_persist(profile, s), s),
{
    let once = spec_persist(profile, s);
    if !spec_present(profile, s) {
        let i = once.len() - 1;
        assert(once[i] == spec_definition_line(s));
        lemma_definition_line_defines(s);
    }
}

/// Persisting another variable keeps what the profile already holds.
pub proof fn lemma_present_kept(profile: Seq<Seq<char>>, s: EnvVarSpec, t: EnvVarSpec)
    requires
        spec_present(profile, s),
    ensures
        spec_present(spec_persist(profile, t), s),
{
    let next = spec_persist(profile, t);
    match s.mode {
        WriteMode::SetIfAbsent => {
            let i = choose|i: int|
                0 <= i < profile.len() && line_defines(#[trigger] profile[i], s.name@);
            assert(next[i] == profile[i]);
        },
        WriteMode::AppendPath => {
            let i = choose|i: int|
                0 <= i < profile.len() && #[trigger] profile[i] == spec_definition_line(s);
            assert(next[i] == profile[i]);
        },
    }
}

/// Persisting is idempotent: a second `persist` of the same variable
/// leaves the profile as the first one left it.
pub proof fn lemma_persist_idempotent(profile: Seq<Seq<char>>, s: EnvVarSpec)
    ensures
        spec_persist(spec_persist(profile, s), s) == spec_persist(profile, s),
{
    lemma_persisted_present(profile, s);
}

/// Persisting a variable twice into an empty profile leaves exactly one
/// line, its definition.
pub proof fn lemma_persist_twice_on_empty(s: EnvVarSpec)
    ensures
        spec_persist(spec_persist(Seq::empty(), s), s) == seq![spec_definition_line(s)],
{
    lemma_persist_idempotent(Seq::empty(), s);
    assert(Seq::<Seq<char>>::empty().push(spec_definition_line(s)) =~= seq![
        spec_definition_line(s),
    ]);
}

/// The profile's lines after persisting every variable of `plan`, in order.
pub open spec fn spec_persist_plan(profile: Seq<Seq<char>>, plan: Seq<EnvVarSpec>) -> Seq<
    Seq<char>,
>
    decreases plan.len(),
{
    if plan.len() == 0 {
        profile
    } else {
        spec_persist_plan(spec_persist(profile, plan[0]), plan.drop_first())
    }
}

/// Persists every variable of `plan` into the profile's lines, in order.
pub fn persist_plan(profile: &Vec<String>, plan: &Vec<EnvVarSpec>) -> (r: Vec<String>)
    ensures
        lines_view(r@) == spec_persist_plan(lines_view(profile@), plan@),
{
    let mut r = profile.clone();
    assert(lines_view(r@) =~= lines_view(profile@));
    let mut i: usize = 0;
    assert(plan@.subrange(0, plan@.len() as int) =~= plan@);
    while i < plan.len()
        invariant
            i <= plan@.len(),
            spec_persist_plan(lines_view(profile@), plan@) == spec_persist_plan(
                lines_view(r@),
                plan@.subrange(i as int, plan@.len() as int),
            ),
        decreases plan@.len() - i,
    {
        proof {
            let rest = plan@.subrange(i as int, plan@.len() as int);
            assert(rest[0] == plan@[i as int]);
            assert(rest.drop_first() =~= plan@.subrange(i + 1, plan@.len() as int));
        }
        r = persist(&r, &plan[i]);
        i += 1;
    }
    assert(plan@.subrange(i as int, plan@.len() as int) =~= Seq::<EnvVarSpec>::empty());
    r
}

proof fn lemma_plan_keeps_present(profile: Seq<Seq<char>>, plan: Seq<EnvVarSpec>, s: EnvVarSpec)
    requires
        spec_present(profile, s),
    ensures
        spec_present(spec_persist_plan(profile, plan), s),
    decreases plan.len(),
{
    if plan.len() > 0 {
        lemma_present_kept(profile, s, plan[0]);
        lemma_plan_keeps_present(spec_persist(profile, plan[0]), plan.drop_first(), s);
    }
}

/// After persisting a plan, the profile holds what each of its variables writes.
pub proof fn lemma_plan_all_present(profile: Seq<Seq<char>>, plan: Seq<EnvVarSpec>)
    ensures
        forall|i: int|
            0 <= i < plan.len() ==> spec_present(
                spec_persist_plan(profile, plan),
                #[trigger] plan[i],
            ),
    decreases plan.len(),
{
    if plan.len() > 0 {
        let next = spec_persist(profile, plan[0]);
        let rest = plan.drop_first();
        lemma_plan_all_present(next, rest);
        lemma_persisted_present(profile, plan[0]);
        lemma_plan_keeps_present(next, rest, plan[0]);
        assert forall|i: int| 0 <= i < plan.len() implies spec_present(
            spec_persist_plan(profile, plan),
            #[trigger] plan[i],
        ) by {
            if i > 0 {
                assert(plan[i] == rest[i - 1]);
            }
        }
    }
}

proof fn lemma_plan_on_present(profile: Seq<Seq<char>>, plan: Seq<EnvVarSpec>)
    requires
        forall|i: int| 0 <= i < plan.len() ==> spec_present(profile, #[trigger] plan[i]),
    ensures
        spec_persist_plan(profile, plan) == profile,
    decreases plan.len(),
{
    if plan.len() > 0 {
        assert(spec_present(profile, plan[0]));
        let rest = plan.drop_first();
        assert forall|i: int| 0 <= i < rest.len() implies spec_present(profile, #[trigger] rest[i]) by {
            assert(rest[i] == plan[i + 1]);
        }
        lemma_plan_on_present(profile, rest);
    }
}

/// Persisting a whole plan is idempotent: a second run over the plan leaves
/// the profile as the first run left it.
pub proof fn lemma_persist_plan_idempotent(profile: Seq<Seq<char>>, plan: Seq<EnvVarSpec>)
    ensures
        spec_persist_plan(spec_persist_plan(profile, plan), plan) == spec_persist_plan(profile, plan),
{
    lemma_plan_all_present(profile, plan);
    lemma_plan_on_present(spec_persist_plan(profile, plan), plan);
}

/// `n` can name a variable in a definition line: it holds no `=` and no space.
pub open spec fn valid_name(n: Seq<char>) -> bool {
    forall|k: int| 0 <= k < n.len() ==> n[k] != '=' && n[k] != ' '
}

/// A definition line defines no other valid name than its own.
pub proof fn lemma_definition_line_defines_only_own(s: EnvVarSpec, name: Seq<char>)
    requires
        valid_name(s.name@),
        valid_name(name),
        name != s.name@,
    ensures
        !line_defines(spec_definition_line(s), name),
{
    reveal_strlit("export ");
    reveal_strlit("=");
    let d = spec_definition_line(s);
    let a = s.name@;
    let b = name;
    assert(d[0] == 'e');
    assert(skip_blanks(d) == d);
    let p = definition_prefix(b);
    if is_prefix(p, d) {
        assert(d.subrange(0, p.len() as int)[7 + b.len() as int] == p[7 + b.len() as int]);
        if b.len() < a.len() {
            assert(d[7 + b.len() as int] == a[b.len() as int]);
        } else if b.len() > a.len() {
            assert(d.subrange(0, p.len() as int)[7 + a.len() as int] == p[7 + a.len() as int]);
            assert(p[7 + a.len() as int] == b[a.len() as int]);
        } else {
            assert forall|k: int| 0 <= k < a.len() implies a[k] == b[k] by {
                assert(d.subrange(0, p.len() as int)[7 + k] == p[7 + k]);
            }
            assert(a =~= b);
        }
    }
    let q = b + "="@;
    if is_prefix(q, d) {
        if b.len() >= 7 {
            assert(d.subrange(0, q.len() as int)[6] == q[6]);
        } else {
            assert(d.subrange(0, q.len() as int)[b.len() as int] == q[b.len() as int]);
            assert(d[b.len() as int] == ("export "@)[b.len() as int]);
        }
    }
}

/// The definition lines of `plan`, in order.
pub open spec fn definition_lines(plan: Seq<EnvVarSpec>) -> Seq<Seq<char>> {
    plan.map_values(|s: EnvVarSpec| spec_definition_line(s))
}

/// The names of `plan` are valid and pairwise distinct.
pub open spec fn distinct_valid_names(plan: Seq<EnvVarSpec>) -> bool {
    &&& forall|i: int| 0 <= i < plan.len() ==> valid_name(#[trigger] plan[i].name@)
    &&& forall|i: int, j: int|
        0 <= i < plan.len() && 0 <= j < plan.len() && i != j ==> #[trigger] plan[i].name@
            != #[trigger] plan[j].name@
}

proof fn lemma_persist_plan_fresh(profile: Seq<Seq<char>>, plan: Seq<EnvVarSpec>)
    requires
        distinct_valid_names(plan),
        forall|i: int| 0 <= i < plan.len() ==> !spec_present(profile, #[trigger] plan[i]),
    ensures
        spec_persist_plan(profile, plan) == profile + definition_lines(plan),
    decreases plan.len(),
{
    if plan.len() == 0 {
        assert(profile + definition_lines(plan) =~= profile);
    } else {
        let s0 = plan[0];
        let rest = plan.drop_first();
        let next = profile.push(spec_definition_line(s0));
        assert(spec_persist(profile, s0) == next);
        assert forall|i: int| 0 <= i < rest.len() implies !spec_present(next, #[trigger] rest[i]) by {
            let t = rest[i];
            assert(t == plan[i + 1]);
            assert(!spec_present(profile, plan[i + 1]));
            assert(t.name@ != s0.name@);
            lemma_definition_line_defines_only_own(s0, t.name@);
            let last = next.len() - 1;
            match t.mode {
                WriteMode::SetIfAbsent => {
                    assert forall|k: int| 0 <= k < next.len() implies !line_defines(
                        #[trigger] next[k],
                        t.name@,
                    ) by {
                        if k < profile.len() {
                            assert(next[k] == profile[k]);
                        }
                    }
                },
                WriteMode::AppendPath => {
                    lemma_definition_line_defines(t);
                    assert forall|k: int| 0 <= k < next.len() implies #[trigger] next[k]
                        != spec_definition_line(t) by {
                        if k < profile.len() {
                            assert(next[k] == profile[k]);
                        }
                    }
                },
            }
        }
        assert forall|i: int| 0 <= i < rest.len() implies valid_name(#[trigger] rest[i].name@) by {
            assert(rest[i] == plan[i + 1]);
        }
        assert forall|i: int, j: int|
            0 <= i < rest.len() && 0 <= j < rest.len() && i != j implies #[trigger] rest[i].name@
                != #[trigger] rest[j].name@ by {
            assert(rest[i] == plan[i + 1]);
            assert(rest[j] == plan[j + 1]);
        }
        lemma_persist_plan_fresh(next, rest);
        assert(next + definition_lines(rest) =~= profile + definition_lines(plan));
    }
}

/// Persisting a plan whose names are valid and distinct into an empty
/// profile, once or twice, leaves exactly its definition lines, in order:
/// one line per variable.
pub proof fn lemma_persist_plan_on_empty(plan: Seq<EnvVarSpec>)
    requires
        distinct_valid_names(plan),
    ensures
        spec_persist_plan(Seq::empty(), plan) == definition_lines(plan),
        spec_persist_plan(spec_persist_plan(Seq::empty(), plan), plan) == definition_lines(plan),
{
    lemma_persist_plan_fresh(Seq::empty(), plan);
    assert(Seq::<Seq<char>>::empty() + definition_lines(plan) =~= definition_lines(plan));
    lemma_persist_plan_idempotent(Seq::empty(), plan);
}

/// Persisting the six variables into an empty profile, once or twice,
/// leaves exactly one definition line per variable, in the plan's order.
pub proof fn lemma_six_variables_persist_once(home: Seq<char>, sdk: Seq<char>, plan: Seq<EnvVarSpec>)
    requires
        spec_plan_ok(home, sdk, plan),
    ensures
        spec_persist_plan(Seq::empty(), plan) == definition_lines(plan),
        spec_persist_plan(spec_persist_plan(Seq::empty(), plan), plan) == definition_lines(plan),
{
    reveal_strlit("VULKAN_SDK");
    reveal_strlit("PATH");
    reveal_strlit("DYLD_LIBRARY_PATH");
    reveal_strlit("VK_ICD_FILENAMES");
    reveal_strlit("VK_LAYER_PATH");
    reveal_strlit("SHADERC_LIB_DIR");
    assert forall|i: int| 0 <= i < plan.len() implies valid_name(#[trigger] plan[i].name@) by {
        let n = plan[i].name@;
        assert forall|k: int| 0 <= k < n.len() implies n[k] != '=' && n[k] != ' ' by {}
    }
    assert forall|i: int, j: int|
        0 <= i < plan.len() && 0 <= j < plan.len() && i != j implies #[trigger] plan[i].name@
            != #[trigger] plan[j].name@ by {
        assert(plan[i].name@.len() != plan[j].name@.len());
    }
    lemma_persist_plan_on_empty(plan);
}

/// The first path in `paths` that `holds` accepts: what a first-match-wins
/// search (a shell looking up a command, a loader looking up a library) finds.
pub open spec fn first_match(paths: Seq<Seq<char>>, holds: spec_fn(Seq<char>) -> bool) -> Option<
    Seq<char>,
>
    decreases paths.len(),
{
    if paths.len() == 0 {
        None
    } else if holds(paths[0]) {
        Some(paths[0])
    } else {
        first_match(paths.drop_first(), holds)
    }
}

/// `seg` placed in front of the path list `list`.
pub fn prepend_segment(list: &Vec<String>, seg: &String) -> (r: Vec<String>)
    ensures
        r@ == seq![*seg] + list@,
{
    let mut r: Vec<String> = Vec::new();
    r.push(seg.clone());
    let mut i: usize = 0;
    while i < list.len()
        invariant
            i <= list@.len(),
            r@ == seq![*seg] + list@.subrange(0, i as int),
        decreases list@.len() - i,
    {
        r.push(list[i].clone());
        proof {
            assert(list@.subrange(0, i + 1) =~= list@.subrange(0, i as int).push(list@[i as int]));
        }
        i += 1;
    }
    assert(list@.subrange(0, list@.len() as int) =~= list@);
    r
}

/// What applying `s` to the current process does to its variable, whose
/// value is given as a path list (`None` when unset). `None` leaves the
/// variable as it is; `Some(list)` sets it to `list`. A path list that
/// already starts with the value is left as it is.
pub open spec fn spec_process_update(s: EnvVarSpec, current: Option<Seq<String>>) -> Option<
    Seq<String>,
> {
    match s.mode {
        WriteMode::SetIfAbsent => match current {
            Some(_) => None,
            None => Some(seq![s.value]),
        },
        WriteMode::AppendPath => match current {
            Some(list) => if list.len() > 0 && list[0]@ == s.value@ {
                None
            } else {
                Some(seq![s.value] + list)
            },
            None => Some(seq![s.value]),
        },
    }
}

/// The variable's value after applying `s` to a process where it was `current`.
pub open spec fn after_update(s: EnvVarSpec, current: Option<Seq<String>>) -> Option<Seq<String>> {
    match spec_process_update(s, current) {
        Some(list) => Some(list),
        None => current,
    }
}

/// Applying a variable to the process is idempotent: a second application
/// leaves the variable as the first one left it.
pub proof fn lemma_process_update_idempotent(s: EnvVarSpec, current: Option<Seq<String>>)
    ensures
        spec_process_update(s, after_update(s, current)) is None,
        after_update(s, after_update(s, current)) == after_update(s, current),
{
    match spec_process_update(s, current) {
        Some(list) => {
            assert(list[0] == s.value);
        },
        None => {},
    }
}

/// A borrowed path list that may be absent, as a view.
pub open spec fn ref_opt_view(o: Option<&Vec<String>>) -> Option<Seq<String>> {
    match o {
        Some(v) => Some(v@),
        None => None,
    }
}

/// A path list that may be absent, as a view.
pub open spec fn list_opt_view(o: Option<Vec<String>>) -> Option<Seq<String>> {
    match o {
        Some(v) => Some(v@),
        None => None,
    }
}

/// After applying `s`, a path list starts with its value, and a plain
/// variable that was unset holds exactly its value.
pub proof fn lemma_applied_value(s: EnvVarSpec, current: Option<Seq<String>>)
    ensures
        s.mode == WriteMode::AppendPath ==> ({
            let after = after_update(s, current);
            after is Some && after->Some_0.len() > 0 && after->Some_0[0]@ == s.value@
        }),
        s.mode == WriteMode::SetIfAbsent ==> (current is None ==> after_update(s, current) == Some(
            seq![s.value],
        )),
        s.mode == WriteMode::SetIfAbsent ==> (current is Some ==> after_update(s, current)
            == current),
{
}

/// The new value of the variable of `s` in the current process: a plain
/// variable is set only when unset, a path list gets the value in front
/// unless it already starts with it.
pub fn process_update(s: &EnvVarSpec, current: Option<&Vec<String>>) -> (r: Option<Vec<String>>)
    ensures
        list_opt_view(r) == spec_process_update(*s, ref_opt_view(current)),
{
    match s.mode {
        WriteMode::SetIfAbsent => match current {
            Some(_) => None,
            None => Some(vec![s.value.clone()]),
        },
        WriteMode::AppendPath => match current {
            Some(list) => {
                if list.len() > 0 && list[0] == s.value {
                    None
                } else {
                    Some(prepend_segment(list, &s.value))
                }
            },
            None => Some(vec![s.value.clone()]),
        },
    }
}

/// A segment placed in front of a path list is found before every path
/// that was there, and the old paths keep their order behind it.
pub proof fn lemma_prepended_segment_wins(
    list: Seq<Seq<char>>,
    seg: Seq<char>,
    holds: spec_fn(Seq<char>) -> bool,
)
    requires
        holds(seg),
    ensures
        first_match(seq![seg] + list, holds) == Some(seg),
        (seq![seg] + list).drop_first() == list,
{
    assert((seq![seg] + list)[0] == seg);
    assert((seq![seg] + list).drop_first() =~= list);
}

/// The present value of the `i`-th variable; one that `current` does not
/// reach is unset.
pub open spec fn current_at(current: Seq<Option<Vec<String>>>, i: int) -> Option<Seq<String>> {
    if 0 <= i < current.len() {
        list_opt_view(current[i])
    } else {
        None
    }
}

/// The updates for every variable of `plan`, in its order: `current[i]`
/// is the present value of the variable of `plan[i]`, and `r[i]` what
/// applying it does (`None`: leave it as it is).
pub fn apply_plan(plan: &Vec<EnvVarSpec>, current: &Vec<Option<Vec<String>>>) -> (r: Vec<
    Option<Vec<String>>,
>)
    ensures
        r@.len() == plan@.len(),
        forall|i: int|
            0 <= i < plan@.len() ==> list_opt_view(#[trigger] r@[i]) == spec_process_update(
                plan@[i],
                current_at(current@, i),
            ),
{
    let mut r: Vec<Option<Vec<String>>> = Vec::new();
    let mut i: usize = 0;
    while i < plan.len()
        invariant
            i <= plan@.len(),
            r@.len() == i,
            forall|j: int|
                0 <= j < i ==> list_opt_view(#[trigger] r@[j]) == spec_process_update(
                    plan@[j],
                    current_at(current@, j),
                ),
        decreases plan@.len() - i,
    {
        let u = if i < current.len() {
            match &current[i] {
                Some(v) => process_update(&plan[i], Some(v)),
                None => process_update(&plan[i], None),
            }
        } else {
            process_update(&plan[i], None)
        };
        r.push(u);
        i += 1;
    }
    r
}

/// Applying the process plan for `home` to a process where the primary
/// variable is unset: afterwards it holds the install root, `PATH` starts
/// with the root's `bin` and `DYLD_LIBRARY_PATH` with its `lib`; the three
/// other variables hold their value unless they were set already; and a
/// second application changes nothing.
pub proof fn lemma_process_plan_applied(
    home: Seq<char>,
    plan: Seq<EnvVarSpec>,
    current: Seq<Option<Seq<String>>>,
)
    requires
        spec_plan_ok(home, root_of(home), plan),
        current.len() == 6,
        current[0] is None,
    ensures
        after_update(plan[0], current[0]) == Some(seq![plan[0].value]),
        plan[0].value@ == root_of(home),
        after_update(plan[1], current[1])->Some_0[0]@ == root_of(home) + "/bin"@,
        after_update(plan[2], current[2])->Some_0[0]@ == root_of(home) + "/lib"@,
        forall|i: int|
            3 <= i < 6 ==> (#[trigger] current[i] is None ==> after_update(plan[i], current[i])
                == Some(seq![plan[i].value])),
        forall|i: int|
            0 <= i < 6 ==> spec_process_update(plan[i], #[trigger] after_update(plan[i], current[i]))
                is None,
{
    lemma_applied_value(plan[0], current[0]);
    lemma_applied_value(plan[1], current[1]);
    lemma_applied_value(plan[2], current[2]);
    assert forall|i: int| 3 <= i < 6 implies (#[trigger] current[i] is None ==> after_update(
        plan[i],
        current[i],
    ) == Some(seq![plan[i].value])) by {
        lemma_applied_value(plan[i], current[i]);
    }
    assert forall|i: int| 0 <= i < 6 implies spec_process_update(
        plan[i],
        #[trigger] after_update(plan[i], current[i]),
    ) is None by {
        lemma_process_update_idempotent(plan[i], current[i]);
    }
}

} // verus!
