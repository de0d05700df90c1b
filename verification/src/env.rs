//! The explicit environment that build commands run with.
//!
//! Build commands run with a fully replaced environment, so only what is
//! collected here reaches them: `HOME` and `PATH`, which must be set, and a
//! small allowlist of optional variables (`TERM`, `SSH_AUTH_SOCK`, `QMAKE`)
//! forwarded from the surrounding environment when they are set.
//!
//! A variable is a name and a value; values are raw bytes, as an OS string
//! holds them. A list of variables denotes a map from name to value in which
//! a later entry for a name replaces an earlier one.

use vstd::prelude::*;

verus! {

/// The map that a list of variables denotes: a later entry for a name wins.
pub open spec fn vars_map(s: Seq<(String, Vec<u8>)>) -> Map<Seq<char>, Seq<u8>>
    decreases s.len(),
{
    if s.len() == 0 {
        Map::empty()
    } else {
        vars_map(s.drop_last()).insert(s.last().0@, s.last().1@)
    }
}

/// No name occurs twice in the list.
pub open spec fn names_unique(s: Seq<(String, Vec<u8>)>) -> bool {
    forall|i: int, j: int|
        0 <= i < j < s.len() ==> (#[trigger] s[i]).0@ != (#[trigger] s[j]).0@
}

/// The value of the first entry named `name`, as a process environment is read.
pub open spec fn first_value(s: Seq<(String, Vec<u8>)>, name: Seq<char>) -> Option<Seq<u8>>
    decreases s.len(),
{
    if s.len() == 0 {
        None
    } else if s[0].0@ == name {
        Some(s[0].1@)
    } else {
        first_value(s.drop_first(), name)
    }
}

/// `m` with `name` bound to `value` when there is one, else `m` itself.
pub open spec fn with_optional(
    m: Map<Seq<char>, Seq<u8>>,
    name: Seq<char>,
    value: Option<Seq<u8>>,
) -> Map<Seq<char>, Seq<u8>> {
    match value {
        Some(v) => m.insert(name, v),
        None => m,
    }
}

/// The variables that a new environment holds, read from the process
/// environment `process`: the optional allowlisted ones that are set, then
/// `HOME` and `PATH`.
pub open spec fn initial_vars(process: Seq<(String, Vec<u8>)>) -> Map<Seq<char>, Seq<u8>> {
    let forwarded = with_optional(
        with_optional(
            with_optional(Map::empty(), "TERM"@, first_value(process, "TERM"@)),
            "SSH_AUTH_SOCK"@,
            first_value(process, "SSH_AUTH_SOCK"@),
        ),
        "QMAKE"@,
        first_value(process, "QMAKE"@),
    );
    forwarded.insert("HOME"@, first_value(process, "HOME"@).unwrap()).insert(
        "PATH"@,
        first_value(process, "PATH"@).unwrap(),
    )
}

/// The base environment forwards exactly its allowlist: it holds
/// `HOME` and `PATH`, and those of `TERM`, `SSH_AUTH_SOCK` and `QMAKE` that
/// the process environment sets, each with the value that the process
/// environment gives it, and no other variable.
pub proof fn lemma_initial_vars_forward_only_allowlist(
    process: Seq<(String, Vec<u8>)>,
    name: Seq<char>,
)
    requires
        first_value(process, "HOME"@) is Some,
        first_value(process, "PATH"@) is Some,
    ensures
        initial_vars(process).contains_key(name) <==> (name == "HOME"@ || name == "PATH"@ || ((
        name == "TERM"@ || name == "SSH_AUTH_SOCK"@ || name == "QMAKE"@) && first_value(
            process,
            name,
        ) is Some)),
        initial_vars(process).contains_key(name) ==> first_value(process, name) == Some(
            initial_vars(process)[name],
        ),
{
    reveal_strlit("HOME");
    reveal_strlit("PATH");
    reveal_strlit("TERM");
    reveal_strlit("SSH_AUTH_SOCK");
    reveal_strlit("QMAKE");
    assert("HOME"@[0] != "PATH"@[0]);
    assert("HOME"@ != "PATH"@);
    assert("TERM"@[0] != "HOME"@[0] && "TERM"@[0] != "PATH"@[0]);
    assert("TERM"@ != "HOME"@ && "TERM"@ != "PATH"@);
    assert("SSH_AUTH_SOCK"@.len() != "HOME"@.len());
    assert("QMAKE"@.len() != "HOME"@.len());
    assert("QMAKE"@.len() != "SSH_AUTH_SOCK"@.len());
    assert("QMAKE"@ != "TERM"@ && "SSH_AUTH_SOCK"@ != "TERM"@);
}

/// The `PATH` that results from putting `dir` in front of `path`, separated by `:`.
pub open spec fn prepended(dir: Seq<u8>, path: Seq<u8>) -> Seq<u8> {
    dir + seq![58u8] + path
}

/// Putting `dir` in front of `path` gives `dir`, one `:` byte, then the
/// whole of `path`, and nothing else.
pub proof fn lemma_prepended_keeps_whole_path(dir: Seq<u8>, path: Seq<u8>)
    ensures
        prepended(dir, path).len() == dir.len() + 1 + path.len(),
        prepended(dir, path).subrange(0, dir.len() as int) == dir,
        prepended(dir, path)[dir.len() as int] == 58u8,
        prepended(dir, path).subrange(dir.len() as int + 1, prepended(dir, path).len() as int) == path,
{
    let p = prepended(dir, path);
    assert(p.subrange(0, dir.len() as int) =~= dir);
    assert(p.subrange(dir.len() as int + 1, p.len() as int) =~= path);
}

/// A process environment is read by exact name: the value found for `name`
/// is that of the first entry whose name is exactly `name`, and nothing is
/// found exactly when no entry has that name.
pub proof fn lemma_first_value_is_first_exact_match(s: Seq<(String, Vec<u8>)>, name: Seq<char>)
    ensures
        first_value(s, name) is None <==> (forall|i: int| 0 <= i < s.len() ==> s[i].0@ != name),
        first_value(s, name) is Some ==> exists|i: int|
            0 <= i < s.len() && s[i].0@ == name && first_value(s, name) == Some(s[i].1@) && (
            forall|j: int| 0 <= j < i ==> s[j].0@ != name),
    decreases s.len(),
{
    if s.len() > 0 {
        let t = s.drop_first();
        lemma_first_value_is_first_exact_match(t, name);
        if s[0].0@ == name {
            assert(0 <= 0 < s.len() && s[0].0@ == name && first_value(s, name) == Some(s[0].1@));
        } else {
            if first_value(t, name) is Some {
                let i = choose|i: int|
                    0 <= i < t.len() && t[i].0@ == name && first_value(t, name) == Some(t[i].1@)
                        && (forall|j: int| 0 <= j < i ==> t[j].0@ != name);
                assert(s[i + 1] == t[i]);
                assert forall|j: int| 0 <= j < i + 1 implies s[j].0@ != name by {
                    if j > 0 {
                        assert(s[j] == t[j - 1]);
                    }
                }
            } else {
                assert forall|i: int| 0 <= i < s.len() implies s[i].0@ != name by {
                    if i > 0 {
                        assert(s[i] == t[i - 1]);
                    }
                }
            }
            if forall|i: int| 0 <= i < s.len() ==> s[i].0@ != name {
                assert forall|i: int| 0 <= i < t.len() implies t[i].0@ != name by {
                    assert(t[i] == s[i + 1]);
                }
            }
        }
    }
}

/// A list of variables binds exactly the names that its entries carry, each
/// to the value of the last entry with that name.
pub proof fn lemma_vars_map_last_entry_wins(s: Seq<(String, Vec<u8>)>, name: Seq<char>)
    ensures
        vars_map(s).contains_key(name) <==> exists|i: int| 0 <= i < s.len() && s[i].0@ == name,
        vars_map(s).contains_key(name) ==> exists|i: int|
            0 <= i < s.len() && s[i].0@ == name && vars_map(s)[name] == s[i].1@ && (forall|j: int|
                i < j < s.len() ==> s[j].0@ != name),
    decreases s.len(),
{
    lemma_vars_map_dom(s, name);
    if s.len() > 0 {
        let t = s.drop_last();
        let last = s.len() - 1;
        lemma_vars_map_last_entry_wins(t, name);
        if s[last].0@ == name {
            assert(0 <= last < s.len() && s[last].0@ == name && vars_map(s)[name] == s[last].1@);
        } else if vars_map(s).contains_key(name) {
            let i = choose|i: int|
                0 <= i < t.len() && t[i].0@ == name && vars_map(t)[name] == t[i].1@ && (forall|
                    j: int,
                | i < j < t.len() ==> t[j].0@ != name);
            assert(s[i] == t[i]);
            assert forall|j: int| i < j < s.len() implies s[j].0@ != name by {
                if j < last {
                    assert(s[j] == t[j]);
                }
            }
        }
    }
}

/// Two lists whose entries have the same views denote the same map.
proof fn lemma_vars_map_same_views(s: Seq<(String, Vec<u8>)>, t: Seq<(String, Vec<u8>)>)
    requires
        s.len() == t.len(),
        forall|i: int| 0 <= i < s.len() ==> s[i].0@ == t[i].0@ && s[i].1@ == t[i].1@,
    ensures
        vars_map(s) == vars_map(t),
    decreases s.len(),
{
    if s.len() > 0 {
        lemma_vars_map_same_views(s.drop_last(), t.drop_last());
    }
}

/// A name is bound in the map exactly when some entry carries it.
proof fn lemma_vars_map_dom(s: Seq<(String, Vec<u8>)>, name: Seq<char>)
    ensures
        vars_map(s).contains_key(name) <==> exists|i: int| 0 <= i < s.len() && s[i].0@ == name,
    decreases s.len(),
{
    if s.len() > 0 {
        lemma_vars_map_dom(s.drop_last(), name);
        if vars_map(s.drop_last()).contains_key(name) {
            let i = choose|i: int| 0 <= i < s.drop_last().len() && s.drop_last()[i].0@ == name;
            assert(s[i].0@ == name);
        }
        if exists|i: int| 0 <= i < s.len() && s[i].0@ == name {
            let i = choose|i: int| 0 <= i < s.len() && s[i].0@ == name;
            if i < s.len() - 1 {
                assert(s.drop_last()[i].0@ == name);
            }
        }
    }
}

/// With unique names, each entry's value is what the map binds its name to.
proof fn lemma_vars_map_entry(s: Seq<(String, Vec<u8>)>, i: int)
    requires
        names_unique(s),
        0 <= i < s.len(),
    ensures
        vars_map(s).contains_key(s[i].0@),
        vars_map(s)[s[i].0@] == s[i].1@,
    decreases s.len(),
{
    if i < s.len() - 1 {
        assert(names_unique(s.drop_last()));
        assert(s.drop_last()[i] == s[i]);
        lemma_vars_map_entry(s.drop_last(), i);
        assert(s[i].0@ != s[s.len() - 1].0@);
    }
}

/// With unique names, replacing the entry of a name rebinds that name and nothing else.
proof fn lemma_vars_map_update(
    s: Seq<(String, Vec<u8>)>,
    i: int,
    entry: (String, Vec<u8>),
)
    requires
        names_unique(s),
        0 <= i < s.len(),
        s[i].0@ == entry.0@,
    ensures
        vars_map(s.update(i, entry)) == vars_map(s).insert(entry.0@, entry.1@),
        names_unique(s.update(i, entry)),
    decreases s.len(),
{
    let u = s.update(i, entry);
    if i == s.len() - 1 {
        assert(u.drop_last() =~= s.drop_last());
        assert(vars_map(u) =~= vars_map(s).insert(entry.0@, entry.1@));
    } else {
        assert(names_unique(s.drop_last()));
        lemma_vars_map_update(s.drop_last(), i, entry);
        assert(u.drop_last() =~= s.drop_last().update(i, entry));
        assert(s[i].0@ != s[s.len() - 1].0@);
        assert(vars_map(u) =~= vars_map(s).insert(entry.0@, entry.1@));
    }
    assert forall|a: int, b: int| 0 <= a < b < u.len() implies (#[trigger] u[a]).0@ != (
    #[trigger] u[b]).0@ by {
        assert(s[a].0@ != s[b].0@);
    }
}

/// Binds `name` to `value`: replaces the entry of `name` if there is one,
/// else appends a new entry.
fn set_var(vars: &mut Vec<(String, Vec<u8>)>, name: String, value: Vec<u8>)
    requires
        names_unique(old(vars)@),
    ensures
        names_unique(final(vars)@),
        vars_map(final(vars)@) == vars_map(old(vars)@).insert(name@, value@),
{
    match position(vars, &name) {
        Some(i) => {
            proof {
                lemma_vars_map_update(vars@, i as int, (name, value));
            }
            vars.set(i, (name, value));
        },
        None => {
            let ghost before = vars@;
            vars.push((name, value));
            assert(vars@.drop_last() =~= before);
            assert forall|a: int, b: int| 0 <= a < b < vars@.len() implies (
            #[trigger] vars@[a]).0@ != (#[trigger] vars@[b]).0@ by {
                if b < vars@.len() - 1 {
                    assert(before[a].0@ != before[b].0@);
                }
            }
        },
    }
}

/// The index of the entry named `name`, if any.
fn position(vars: &Vec<(String, Vec<u8>)>, name: &String) -> (r: Option<usize>)
    ensures
        match r {
            Some(i) => i < vars@.len() && vars@[i as int].0@ == name@,
            None => forall|i: int| 0 <= i < vars@.len() ==> vars@[i].0@ != name@,
        },
{
    let mut i: usize = 0;
    while i < vars.len()
        invariant
            i <= vars@.len(),
            forall|j: int| 0 <= j < i ==> vars@[j].0@ != name@,
        decreases vars@.len() - i,
    {
        if vars[i].0 == *name {
            return Some(i);
        }
        i = i + 1;
    }
    None
}

/// A byte-for-byte copy of `bytes`.
fn copy_bytes(bytes: &[u8]) -> (r: Vec<u8>)
    ensures
        r@ == bytes@,
{
    let mut r: Vec<u8> = Vec::new();
    let mut i: usize = 0;
    while i < bytes.len()
        invariant
            i <= bytes@.len(),
            r@ == bytes@.subrange(0, i as int),
        decreases bytes@.len() - i,
    {
        r.push(bytes[i]);
        i = i + 1;
        assert(r@ =~= bytes@.subrange(0, i as int));
    }
    assert(bytes@.subrange(0, bytes@.len() as int) =~= bytes@);
    r
}

/// An entry-by-entry copy of a list of variables.
fn copy_vars(vars: &Vec<(String, Vec<u8>)>) -> (r: Vec<(String, Vec<u8>)>)
    ensures
        r@.len() == vars@.len(),
        forall|i: int| 0 <= i < vars@.len() ==> r@[i].0@ == vars@[i].0@ && r@[i].1@ == vars@[i].1@,
        vars_map(r@) == vars_map(vars@),
        names_unique(vars@) ==> names_unique(r@),
{
    let mut r: Vec<(String, Vec<u8>)> = Vec::new();
    let mut i: usize = 0;
    while i < vars.len()
        invariant
            i <= vars@.len(),
            r@.len() == i,
            forall|j: int| 0 <= j < i ==> r@[j].0@ == vars@[j].0@ && r@[j].1@ == vars@[j].1@,
        decreases vars@.len() - i,
    {
        let name = vars[i].0.clone();
        let value = copy_bytes(vars[i].1.as_slice());
        r.push((name, value));
        i = i + 1;
    }
    proof {
        lemma_vars_map_same_views(r@, vars@);
        if names_unique(vars@) {
            assert forall|a: int, b: int| 0 <= a < b < r@.len() implies (#[trigger] r@[a]).0@ != (
            #[trigger] r@[b]).0@ by {
                assert(vars@[a].0@ != vars@[b].0@);
            }
        }
    }
    r
}

/// The value of the first entry named `name`, copied out.
fn lookup(process: &Vec<(String, Vec<u8>)>, name: &str) -> (r: Option<Vec<u8>>)
    ensures
        match r {
            Some(v) => first_value(process@, name@) == Some(v@),
            None => first_value(process@, name@) is None,
        },
{
    let key = String::from_str(name);
    let mut i: usize = 0;
    assert(process@.skip(0) =~= process@);
    while i < process.len()
        invariant
            i <= process@.len(),
            key@ == name@,
            first_value(process@, name@) == first_value(process@.skip(i as int), name@),
        decreases process@.len() - i,
    {
        assert(process@.skip(i as int)[0] == process@[i as int]);
        if process[i].0 == key {
            return Some(copy_bytes(process[i].1.as_slice()));
        }
        assert(process@.skip(i as int).drop_first() =~= process@.skip(i + 1));
        i = i + 1;
    }
    assert(process@.skip(i as int).len() == 0);
    None
}

/// Copies the variable `name` from the process environment into `vars` when it is set there.
fn forward(vars: &mut Vec<(String, Vec<u8>)>, process: &Vec<(String, Vec<u8>)>, name: &str)
    requires
        names_unique(old(vars)@),
    ensures
        names_unique(final(vars)@),
        vars_map(final(vars)@) == with_optional(
            vars_map(old(vars)@),
            name@,
            first_value(process@, name@),
        ),
{
    if let Some(value) = lookup(process, name) {
        set_var(vars, String::from_str(name), value);
    }
}

/// The reason a new environment cannot be made.
#[derive(Debug)]
pub enum Error {
    /// The variable of that name, which the environment needs, is not set.
    NotSet(&'static str),
}

impl Error {
    /// The text that describes the error.
    pub fn to_string(&self) -> (text: String)
        ensures
            match self {
                Error::NotSet(name) => text@ == "The `"@ + name@
                    + "` environment variable isn't set, which is quite weird"@,
            },
    {
        match self {
            Error::NotSet(name) => {
                let mut text = String::from_str("The `");
                text.append(name);
                text.append("` environment variable isn't set, which is quite weird");
                text
            },
        }
    }
}

/// The environment that build commands run with: a set of variables, `PATH`
/// among them.
#[derive(Debug)]
pub struct Env {
    vars: Vec<(String, Vec<u8>)>,
}

impl View for Env {
    type V = Map<Seq<char>, Seq<u8>>;

    closed spec fn view(&self) -> Map<Seq<char>, Seq<u8>> {
        vars_map(self.vars@)
    }
}

impl Env {
    /// No variable is held twice, and `PATH` is always held.
    #[verifier::type_invariant]
    closed spec fn well_formed(self) -> bool {
        &&& names_unique(self.vars@)
        &&& vars_map(self.vars@).contains_key("PATH"@)
    }

    /// The base environment, read from the process environment `process`
    /// (its variables in order, the first of a name counting): `HOME` and
    /// `PATH`, which must be set, and `TERM`, `SSH_AUTH_SOCK` and `QMAKE` where
    /// they are set. `QMAKE` selects the Qt kit that a build uses; a cross
    /// build needs it to reach the build script, which sees only this
    /// environment.
    pub fn new(process: &Vec<(String, Vec<u8>)>) -> (r: Result<Env, Error>)
        ensures
            first_value(process@, "HOME"@) is None ==> (r matches Err(Error::NotSet(name))
                && name == "HOME"),
            first_value(process@, "HOME"@) is Some && first_value(process@, "PATH"@) is None
                ==> (r matches Err(Error::NotSet(name)) && name == "PATH"),
            first_value(process@, "HOME"@) is Some && first_value(process@, "PATH"@) is Some
                ==> (r matches Ok(env) && env@ == initial_vars(process@)),
    {
        let home = match lookup(process, "HOME") {
            Some(v) => v,
            None => {
                return Err(Error::NotSet("HOME"));
            },
        };
        let path = match lookup(process, "PATH") {
            Some(v) => v,
            None => {
                return Err(Error::NotSet("PATH"));
            },
        };
        let mut vars: Vec<(String, Vec<u8>)> = Vec::new();
        forward(&mut vars, process, "TERM");
        forward(&mut vars, process, "SSH_AUTH_SOCK");
        forward(&mut vars, process, "QMAKE");
        set_var(&mut vars, String::from_str("HOME"), home);
        set_var(&mut vars, String::from_str("PATH"), path);
        Ok(Env { vars })
    }

    /// The value of `PATH`, which every environment holds.
    pub fn path(&self) -> (path: &Vec<u8>)
        ensures
            self@.contains_key("PATH"@),
            path@ == self@["PATH"@],
    {
        proof {
            use_type_invariant(self);
        }
        let key = String::from_str("PATH");
        match position(&self.vars, &key) {
            Some(i) => {
                proof {
                    lemma_vars_map_entry(self.vars@, i as int);
                }
                &self.vars[i].1
            },
            None => {
                proof {
                    lemma_vars_map_dom(self.vars@, "PATH"@);
                }
                &self.vars[0].1
            },
        }
    }

    /// This environment with `dir` put in front of its `PATH`, separated by `:`.
    pub fn prepend_to_path(self, dir: &[u8]) -> (env: Env)
        ensures
            env@ == self@.insert("PATH"@, prepended(dir@, self@["PATH"@])),
            env@.contains_key("PATH"@),
            env@.remove("PATH"@) == self@.remove("PATH"@),
            env@["PATH"@].len() == dir@.len() + 1 + self@["PATH"@].len(),
            env@["PATH"@].subrange(0, dir@.len() as int) == dir@,
            env@["PATH"@][dir@.len() as int] == 58u8,
            env@["PATH"@].subrange(dir@.len() as int + 1, env@["PATH"@].len() as int) == self@["PATH"@],
    {
        proof {
            use_type_invariant(&self);
        }
        let mut path = copy_bytes(dir);
        path.push(58u8);
        let old_path = copy_bytes(self.path().as_slice());
        let mut i: usize = 0;
        let ghost start = path@;
        while i < old_path.len()
            invariant
                i <= old_path@.len(),
                path@ == start + old_path@.subrange(0, i as int),
            decreases old_path@.len() - i,
        {
            path.push(old_path[i]);
            i = i + 1;
            assert(path@ =~= start + old_path@.subrange(0, i as int));
        }
        assert(old_path@.subrange(0, old_path@.len() as int) =~= old_path@);
        assert(path@ =~= prepended(dir@, self@["PATH"@]));
        assert(path@.subrange(0, dir@.len() as int) =~= dir@);
        assert(path@.subrange(dir@.len() as int + 1, path@.len() as int) =~= self@["PATH"@]);
        let ghost old_view = self@;
        let mut vars = self.vars;
        set_var(&mut vars, String::from_str("PATH"), path);
        assert(vars_map(vars@).remove("PATH"@) =~= old_view.remove("PATH"@));
        Env { vars }
    }

    /// Binds `key` to `value`, replacing what `key` was bound to.
    pub fn insert_env_var(&mut self, key: String, value: Vec<u8>)
        ensures
            final(self)@ == old(self)@.insert(key@, value@),
    {
        proof {
            use_type_invariant(&*self);
        }
        let mut vars = copy_vars(&self.vars);
        set_var(&mut vars, key, value);
        self.vars = vars;
    }

    /// This environment with every variable of `vars` added, replacing what
    /// it held under the same names; where `vars` names a variable twice, the
    /// later entry wins.
    pub fn explicit_env_vars(self, vars: Vec<(String, Vec<u8>)>) -> (env: Env)
        ensures
            env@ == self@.union_prefer_right(vars_map(vars@)),
    {
        proof {
            use_type_invariant(&self);
        }
        let ghost before = self@;
        let mut own = self.vars;
        let mut i: usize = 0;
        assert(vars@.subrange(0, 0) =~= Seq::<(String, Vec<u8>)>::empty());
        assert(before.union_prefer_right(Map::empty()) =~= before);
        while i < vars.len()
            invariant
                i <= vars@.len(),
                names_unique(own@),
                vars_map(own@) == before.union_prefer_right(vars_map(vars@.subrange(0, i as int))),
                before.contains_key("PATH"@),
            decreases vars@.len() - i,
        {
            let name = vars[i].0.clone();
            let value = copy_bytes(vars[i].1.as_slice());
            set_var(&mut own, name, value);
            proof {
                let prefix = vars@.subrange(0, i + 1);
                assert(prefix.drop_last() =~= vars@.subrange(0, i as int));
                assert(vars_map(own@) =~= before.union_prefer_right(vars_map(prefix)));
            }
            i = i + 1;
        }
        assert(vars@.subrange(0, vars@.len() as int) =~= vars@);
        Env { vars: own }
    }
}

impl Clone for Env {
    /// A copy of this environment, with the same variables.
    fn clone(&self) -> (env: Self)
        ensures
            env@ == self@,
    {
        proof {
            use_type_invariant(self);
        }
        Env { vars: copy_vars(&self.vars) }
    }
}

/// What gives the explicit set of variables that a command runs with.
pub trait ExplicitEnv: core::fmt::Debug {
    /// The variables, as a map from name to value.
    spec fn explicit_view(&self) -> Map<Seq<char>, Seq<u8>>;

    /// The variables, each once.
    fn explicit_env(&self) -> (vars: Vec<(String, Vec<u8>)>)
        ensures
            names_unique(vars@),
            vars_map(vars@) == self.explicit_view(),
    ;
}

impl ExplicitEnv for Env {
    open spec fn explicit_view(&self) -> Map<Seq<char>, Seq<u8>> {
        self@
    }

    fn explicit_env(&self) -> (vars: Vec<(String, Vec<u8>)>)
        ensures
            names_unique(vars@),
            vars_map(vars@) == self@,
            forall|name: Seq<char>| #![trigger self@.contains_key(name)]
                self@.contains_key(name) <==> exists|i: int|
                    0 <= i < vars@.len() && vars@[i].0@ == name && vars@[i].1@ == self@[name],
            forall|i: int, j: int|
                0 <= i < j < vars@.len() ==> (#[trigger] vars@[i]).0@ != (#[trigger] vars@[j]).0@,
            forall|i: int|
                0 <= i < vars@.len() ==> self@.contains_key((#[trigger] vars@[i]).0@)
                    && vars@[i].1@ == self@[vars@[i].0@],
    {
        proof {
            use_type_invariant(self);
        }
        let vars = copy_vars(&self.vars);
        proof {
            assert forall|name: Seq<char>| #![trigger self@.contains_key(name)]
                self@.contains_key(name) <==> exists|i: int|
                    0 <= i < vars@.len() && vars@[i].0@ == name && vars@[i].1@ == self@[name] by {
                lemma_vars_map_dom(vars@, name);
                if self@.contains_key(name) {
                    let i = choose|i: int| 0 <= i < vars@.len() && vars@[i].0@ == name;
                    lemma_vars_map_entry(vars@, i);
                }
            }
            assert forall|i: int| 0 <= i < vars@.len() implies self@.contains_key(
                (#[trigger] vars@[i]).0@,
            ) && vars@[i].1@ == self@[vars@[i].0@] by {
                lemma_vars_map_entry(vars@, i);
            }
        }
        vars
    }
}

/// The explicit environment of an `Env` is the whole of it: every variable
/// it holds, with its value, and nothing else.
pub proof fn lemma_env_explicit_view_is_whole(env: Env)
    ensures
        env.explicit_view() == env@,
{
}

} // verus!
