//! The built-in table of well-known language servers, and the registry
//! that says which server handles each file extension.
use vstd::prelude::*;
use crate::config::settings::LspServerConfig;
use crate::editor::language::string_is;

verus! {

/// Descriptor for a well-known language server.
pub struct KnownServer {
    /// The binary name on disk (e.g. `"rust-analyzer"`).
    pub binary: &'static str,
    /// File extensions this server handles.
    pub extensions: Vec<&'static str>,
    /// Default CLI arguments (e.g. `["--stdio"]`).
    pub args: Vec<&'static str>,
}

/// Configuration for a language server that the registry can spawn.
#[derive(Debug, Clone)]
pub struct ServerConfig {
    pub command: String,
    pub args: Vec<String>,
    pub extensions: Vec<String>,
}


} // verus!

verus! {

/// The binary, extensions and arguments of a known server.
pub open spec fn server_view(s: KnownServer) -> (Seq<char>, Seq<Seq<char>>, Seq<Seq<char>>) {
    (
        s.binary@,
        s.extensions@.map_values(|e: &str| e@),
        s.args@.map_values(|a: &str| a@),
    )
}

/// The built-in list of well-known language servers.
pub open spec fn known_server_table() -> Seq<(Seq<char>, Seq<Seq<char>>, Seq<Seq<char>>)> {
    seq![
        ("rust-analyzer"@, seq!["rs"@], seq![]),
        ("typescript-language-server"@, seq!["ts"@, "tsx"@, "js"@, "jsx"@], seq!["--stdio"@]),
        ("pyright-langserver"@, seq!["py"@, "pyi"@], seq!["--stdio"@]),
        ("gopls"@, seq!["go"@], seq!["serve"@]),
        ("lua-language-server"@, seq!["lua"@], seq![]),
        ("clangd"@, seq!["c"@, "cpp"@, "h"@, "hpp"@], seq![]),
        ("zls"@, seq!["zig"@], seq![]),
        ("jdtls"@, seq!["java"@], seq![]),
    ]
}

fn server(binary: &'static str, extensions: Vec<&'static str>, args: Vec<&'static str>) -> (s: KnownServer)
    ensures
        s.binary == binary,
        s.extensions == extensions,
        s.args == args,
{
    KnownServer { binary, extensions, args }
}

/// Built-in list of well-known language servers.
pub fn known_servers() -> (r: Vec<KnownServer>)
    ensures
        r@.map_values(|s: KnownServer| server_view(s)) == known_server_table(),
{
    let mut r: Vec<KnownServer> = Vec::new();
    let e0: Vec<&'static str> = vec!["rs"];
    assert(e0@.map_values(|e: &str| e@) =~= seq!["rs"@]);
    let a0: Vec<&'static str> = vec![];
    assert(a0@.map_values(|a: &str| a@) =~= seq![]);
    r.push(server("rust-analyzer", e0, a0));
    let e1: Vec<&'static str> = vec!["ts", "tsx", "js", "jsx"];
    assert(e1@.map_values(|e: &str| e@) =~= seq!["ts"@, "tsx"@, "js"@, "jsx"@]);
    let a1: Vec<&'static str> = vec!["--stdio"];
    assert(a1@.map_values(|a: &str| a@) =~= seq!["--stdio"@]);
    r.push(server("typescript-language-server", e1, a1));
    let e2: Vec<&'static str> = vec!["py", "pyi"];
    assert(e2@.map_values(|e: &str| e@) =~= seq!["py"@, "pyi"@]);
    let a2: Vec<&'static str> = vec!["--stdio"];
    assert(a2@.map_values(|a: &str| a@) =~= seq!["--stdio"@]);
    r.push(server("pyright-langserver", e2, a2));
    let e3: Vec<&'static str> = vec!["go"];
    assert(e3@.map_values(|e: &str| e@) =~= seq!["go"@]);
    let a3: Vec<&'static str> = vec!["serve"];
    assert(a3@.map_values(|a: &str| a@) =~= seq!["serve"@]);
    r.push(server("gopls", e3, a3));
    let e4: Vec<&'static str> = vec!["lua"];
    assert(e4@.map_values(|e: &str| e@) =~= seq!["lua"@]);
    let a4: Vec<&'static str> = vec![];
    assert(a4@.map_values(|a: &str| a@) =~= seq![]);
    r.push(server("lua-language-server", e4, a4));
    let e5: Vec<&'static str> = vec!["c", "cpp", "h", "hpp"];
    assert(e5@.map_values(|e: &str| e@) =~= seq!["c"@, "cpp"@, "h"@, "hpp"@]);
    let a5: Vec<&'static str> = vec![];
    assert(a5@.map_values(|a: &str| a@) =~= seq![]);
    r.push(server("clangd", e5, a5));
    let e6: Vec<&'static str> = vec!["zig"];
    assert(e6@.map_values(|e: &str| e@) =~= seq!["zig"@]);
    let a6: Vec<&'static str> = vec![];
    assert(a6@.map_values(|a: &str| a@) =~= seq![]);
    r.push(server("zls", e6, a6));
    let e7: Vec<&'static str> = vec!["java"];
    assert(e7@.map_values(|e: &str| e@) =~= seq!["java"@]);
    let a7: Vec<&'static str> = vec![];
    assert(a7@.map_values(|a: &str| a@) =~= seq![]);
    r.push(server("jdtls", e7, a7));
    assert(r@.map_values(|s: KnownServer| server_view(s)) =~= known_server_table());
    r
}


/// The strings of a list, each as its characters.
pub open spec fn strings_view(v: Seq<String>) -> Seq<Seq<char>> {
    v.map_values(|s: String| s@)
}

/// The value of a server configuration: its command, arguments and
/// extensions.
pub open spec fn config_view(c: ServerConfig) -> (Seq<char>, Seq<Seq<char>>, Seq<Seq<char>>) {
    (c.command@, strings_view(c.args@), strings_view(c.extensions@))
}

/// A copy of a list of strings.
fn copy_strings(v: &Vec<String>) -> (r: Vec<String>)
    ensures
        strings_view(r@) == strings_view(v@),
{
    let mut out: Vec<String> = Vec::new();
    let mut i: usize = 0;
    while i < v.len()
        invariant
            i <= v.len(),
            strings_view(out@) == strings_view(v@.take(i as int)),
        decreases v.len() - i,
    {
        let ghost before = out@;
        let c = v[i].clone();
        out.push(c);
        assert(out@ == before.push(v@[i as int]));
        assert(strings_view(out@) =~= strings_view(before).push(v@[i as int]@));
        assert(v@.take(i + 1) =~= v@.take(i as int).push(v@[i as int]));
        assert(strings_view(v@.take(i + 1)) =~= strings_view(v@.take(i as int)).push(v@[i as int]@));
        i += 1;
    }
    assert(v@.take(i as int) =~= v@);
    out
}

impl ServerConfig {
    /// A copy of the configuration.
    pub fn duplicate(&self) -> (r: Self)
        ensures
            config_view(r) == config_view(*self),
    {
        ServerConfig {
            command: self.command.clone(),
            args: copy_strings(&self.args),
            extensions: copy_strings(&self.extensions),
        }
    }
}

/// The configuration of the first entry for extension `ext`, if any.
pub open spec fn lookup(entries: Seq<(String, ServerConfig)>, ext: Seq<char>) -> Option<(Seq<char>, Seq<Seq<char>>, Seq<Seq<char>>)>
    decreases entries.len(),
{
    if entries.len() == 0 {
        None
    } else if entries[0].0@ == ext {
        Some(config_view(entries[0].1))
    } else {
        lookup(entries.drop_first(), ext)
    }
}

proof fn lemma_lookup_update(entries: Seq<(String, ServerConfig)>, i: int, e: (String, ServerConfig), k: Seq<char>)
    requires
        0 <= i < entries.len(),
        entries[i].0@ == e.0@,
        forall|j: int| 0 <= j < i ==> entries[j].0@ != e.0@,
    ensures
        lookup(entries.update(i, e), k) == if k == e.0@ { Some(config_view(e.1)) } else { lookup(entries, k) },
    decreases i,
{
    let u = entries.update(i, e);
    if i > 0 {
        assert(entries[0].0@ != e.0@);
        assert(u[0] == entries[0]);
        assert(u.drop_first() =~= entries.drop_first().update(i - 1, e));
        assert forall|j: int| 0 <= j < i - 1 implies entries.drop_first()[j].0@ != e.0@ by {
            assert(entries.drop_first()[j] == entries[j + 1]);
        }
        lemma_lookup_update(entries.drop_first(), i - 1, e, k);
    } else {
        assert(u[0] == e);
        assert(u.drop_first() =~= entries.drop_first());
    }
}

proof fn lemma_lookup_push(entries: Seq<(String, ServerConfig)>, e: (String, ServerConfig), k: Seq<char>)
    requires
        forall|j: int| 0 <= j < entries.len() ==> entries[j].0@ != e.0@,
    ensures
        lookup(entries.push(e), k) == if k == e.0@ { Some(config_view(e.1)) } else { lookup(entries, k) },
    decreases entries.len(),
{
    let p = entries.push(e);
    if entries.len() == 0 {
        assert(p[0] == e);
        assert(p.drop_first() =~= Seq::<(String, ServerConfig)>::empty());
        assert(lookup(p.drop_first(), k) is None);
        assert(lookup(entries, k) is None);
    } else {
        assert(entries[0].0@ != e.0@);
        assert(p[0] == entries[0]);
        assert(p.drop_first() =~= entries.drop_first().push(e));
        assert forall|j: int| 0 <= j < entries.drop_first().len() implies entries.drop_first()[j].0@ != e.0@ by {
            assert(entries.drop_first()[j] == entries[j + 1]);
        }
        lemma_lookup_push(entries.drop_first(), e, k);
    }
}

/// The server that handles each file extension.
pub struct ServerTable {
    pub entries: Vec<(String, ServerConfig)>,
}

impl ServerTable {
    /// The configuration for an extension, if any.
    pub open spec fn server_of(&self, ext: Seq<char>) -> Option<(Seq<char>, Seq<Seq<char>>, Seq<Seq<char>>)> {
        lookup(self.entries@, ext)
    }

    /// No extension has two entries.
    pub open spec fn wf(&self) -> bool {
        forall|i: int, j: int|
            0 <= i < j < self.entries.len() ==> (#[trigger] self.entries@[i]).0@ != (#[trigger] self.entries@[j]).0@
    }

    /// A table with no server.
    pub fn new() -> (t: Self)
        ensures
            t.wf(),
            t.entries.len() == 0,
            forall|k: Seq<char>| #[trigger] t.server_of(k) is None,
    {
        ServerTable { entries: Vec::new() }
    }

    /// Make `config` the server for `ext`, replacing the one it had.
    pub fn insert(&mut self, ext: String, config: ServerConfig)
        requires
            old(self).wf(),
        ensures
            final(self).wf(),
            forall|k: Seq<char>|
                #[trigger] final(self).server_of(k) == if k == ext@ {
                    Some(config_view(config))
                } else {
                    old(self).server_of(k)
                },
    {
        let ghost e = (ext, config);
        let mut i: usize = 0;
        while i < self.entries.len()
            invariant
                i <= self.entries.len(),
                forall|j: int| 0 <= j < i ==> self.entries@[j].0@ != ext@,
            ensures
                i <= self.entries.len(),
                forall|j: int| 0 <= j < i ==> self.entries@[j].0@ != ext@,
                i < self.entries.len() ==> self.entries@[i as int].0@ == ext@,
            decreases self.entries.len() - i,
        {
            if string_is(&self.entries[i].0, ext.as_str()) {
                break;
            }
            i += 1;
        }
        let ghost before = self.entries@;
        if i < self.entries.len() {
            proof {
                assert forall|k: Seq<char>| #[trigger] lookup(before.update(i as int, e), k) == if k == ext@ {
                    Some(config_view(config))
                } else {
                    lookup(before, k)
                } by {
                    lemma_lookup_update(before, i as int, e, k);
                }
            }
            self.entries.set(i, (ext, config));
            assert(self.entries@ == before.update(i as int, e));
            assert forall|a: int, b: int| 0 <= a < b < self.entries.len() implies (#[trigger] self.entries@[a]).0@
                != (#[trigger] self.entries@[b]).0@ by {
                assert(before[a].0@ != before[b].0@);
            }
        } else {
            proof {
                assert forall|k: Seq<char>| #[trigger] lookup(before.push(e), k) == if k == ext@ {
                    Some(config_view(config))
                } else {
                    lookup(before, k)
                } by {
                    lemma_lookup_push(before, e, k);
                }
            }
            self.entries.push((ext, config));
            assert(self.entries@ == before.push(e));
            assert forall|a: int, b: int| 0 <= a < b < self.entries.len() implies (#[trigger] self.entries@[a]).0@
                != (#[trigger] self.entries@[b]).0@ by {
                if b < before.len() {
                    assert(before[a].0@ != before[b].0@);
                }
            }
        }
    }

    /// The server for an extension, if any.
    pub fn get(&self, ext: &str) -> (r: Option<&ServerConfig>)
        ensures
            match r {
                Some(c) => self.server_of(ext@) == Some(config_view(*c)),
                None => self.server_of(ext@) is None,
            },
    {
        let mut i: usize = 0;
        assert(self.entries@.skip(0) =~= self.entries@);
        while i < self.entries.len()
            invariant
                i <= self.entries.len(),
                lookup(self.entries@.skip(i as int), ext@) == lookup(self.entries@, ext@),
            decreases self.entries.len() - i,
        {
            assert(self.entries@.skip(i as int)[0] == self.entries@[i as int]);
            if string_is(&self.entries[i].0, ext) {
                return Some(&self.entries[i].1);
            }
            assert(self.entries@.skip(i as int).drop_first() =~= self.entries@.skip(i + 1));
            i += 1;
        }
        None
    }

    /// How many extensions have a server.
    pub fn len(&self) -> (r: usize)
        ensures
            r == self.entries.len(),
    {
        self.entries.len()
    }
}

/// The table `entries` gets from binding every extension of each server in
/// `servers`, in order: a later binding of an extension replaces an
/// earlier one.
pub open spec fn bound_servers(
    base: spec_fn(Seq<char>) -> Option<(Seq<char>, Seq<Seq<char>>, Seq<Seq<char>>)>,
    servers: Seq<(Seq<char>, Seq<Seq<char>>, Seq<Seq<char>>)>,
) -> spec_fn(Seq<char>) -> Option<(Seq<char>, Seq<Seq<char>>, Seq<Seq<char>>)>
    decreases servers.len(),
{
    if servers.len() == 0 {
        base
    } else {
        let c = servers.last();
        let before = bound_servers(base, servers.drop_last());
        |k: Seq<char>| if c.2.contains(k) { Some(c) } else { before(k) }
    }
}

/// Bind every extension of `config` to it.
fn bind_extensions(table: &mut ServerTable, config: &ServerConfig)
    requires
        old(table).wf(),
    ensures
        final(table).wf(),
        forall|k: Seq<char>|
            #[trigger] final(table).server_of(k) == if strings_view(config.extensions@).contains(k) {
                Some(config_view(*config))
            } else {
                old(table).server_of(k)
            },
{
    let mut i: usize = 0;
    while i < config.extensions.len()
        invariant
            i <= config.extensions.len(),
            table.wf(),
            forall|k: Seq<char>|
                #[trigger] table.server_of(k) == if strings_view(config.extensions@.take(i as int)).contains(k) {
                    Some(config_view(*config))
                } else {
                    old(table).server_of(k)
                },
        decreases config.extensions.len() - i,
    {
        let ghost before = strings_view(config.extensions@.take(i as int));
        let ghost t0 = *table;
        let ext = config.extensions[i].clone();
        table.insert(ext, config.duplicate());
        proof {
            let x = config.extensions@[i as int]@;
            assert(config.extensions@.take(i + 1) =~= config.extensions@.take(i as int).push(config.extensions@[i as int]));
            let after = strings_view(config.extensions@.take(i + 1));
            assert(after =~= before.push(x));
            assert forall|k: Seq<char>| #[trigger] table.server_of(k) == if after.contains(k) {
                Some(config_view(*config))
            } else {
                old(table).server_of(k)
            } by {
                if k == x {
                    assert(after[i as int] == k);
                } else {
                    if after.contains(k) {
                        let j = choose|j: int| 0 <= j < after.len() && after[j] == k;
                        assert(before[j] == k);
                    }
                    if before.contains(k) {
                        let j = choose|j: int| 0 <= j < before.len() && before[j] == k;
                        assert(after[j] == k);
                    }
                }
            }
        }
        i += 1;
    }
    assert(config.extensions@.take(i as int) =~= config.extensions@);
}

/// The server table of the well-known servers that are present: entry `i`
/// of `available` says whether the binary of known server `i` was found.
pub fn discover(available: &Vec<bool>) -> (t: ServerTable)
    ensures
        t.wf(),
        forall|k: Seq<char>|
            #[trigger] t.server_of(k) == bound_servers(
                |k: Seq<char>| None,
                Seq::new(
                    known_server_table().len(),
                    |i: int| if i < available.len() && available@[i] {
                        (known_server_table()[i].0, known_server_table()[i].2, known_server_table()[i].1)
                    } else {
                        (Seq::empty(), Seq::empty(), Seq::empty())
                    },
                ),
            )(k),
{
    let servers = known_servers();
    let mut table = ServerTable::new();
    let ghost kt = known_server_table();
    let ghost picks = Seq::new(
        kt.len(),
        |i: int| if i < available.len() && available@[i] {
            (kt[i].0, kt[i].2, kt[i].1)
        } else {
            (Seq::empty(), Seq::empty(), Seq::empty())
        },
    );
    let mut i: usize = 0;
    while i < servers.len()
        invariant
            i <= servers.len(),
            servers@.map_values(|s: KnownServer| server_view(s)) == kt,
            kt == known_server_table(),
            picks.len() == kt.len(),
            picks == Seq::new(
                kt.len(),
                |i: int| if i < available.len() && available@[i] {
                    (kt[i].0, kt[i].2, kt[i].1)
                } else {
                    (Seq::empty(), Seq::empty(), Seq::empty())
                },
            ),
            table.wf(),
            forall|k: Seq<char>| #[trigger] table.server_of(k) == bound_servers(|k: Seq<char>| None, picks.take(i as int))(k),
        decreases servers.len() - i,
    {
        let ghost before = table;
        if i < available.len() && available[i] {
            let s = &servers[i];
            let mut args: Vec<String> = Vec::new();
            let mut j: usize = 0;
            while j < s.args.len()
                invariant
                    j <= s.args.len(),
                    strings_view(args@) == s.args@.take(j as int).map_values(|a: &str| a@),
                decreases s.args.len() - j,
            {
                let ghost before = args@;
                let item = s.args[j].to_owned();
                args.push(item);
                assert(strings_view(args@) =~= strings_view(before).push(s.args@[j as int]@));
                assert(s.args@.take(j + 1) =~= s.args@.take(j as int).push(s.args@[j as int]));
                assert(s.args@.take(j + 1).map_values(|a: &str| a@) =~= s.args@.take(j as int).map_values(|a: &str| a@).push(s.args@[j as int]@));
                j += 1;
            }
            let mut exts: Vec<String> = Vec::new();
            let mut j: usize = 0;
            while j < s.extensions.len()
                invariant
                    j <= s.extensions.len(),
                    strings_view(exts@) == s.extensions@.take(j as int).map_values(|e: &str| e@),
                decreases s.extensions.len() - j,
            {
                let ghost before = exts@;
                let item = s.extensions[j].to_owned();
                exts.push(item);
                assert(strings_view(exts@) =~= strings_view(before).push(s.extensions@[j as int]@));
                assert(s.extensions@.take(j + 1) =~= s.extensions@.take(j as int).push(s.extensions@[j as int]));
                assert(s.extensions@.take(j + 1).map_values(|e: &str| e@) =~= s.extensions@.take(j as int).map_values(|e: &str| e@).push(s.extensions@[j as int]@));
                j += 1;
            }
            assert(s.args@.take(s.args.len() as int) =~= s.args@);
            assert(s.extensions@.take(s.extensions.len() as int) =~= s.extensions@);
            let config = ServerConfig { command: s.binary.to_owned(), args, extensions: exts };
            assert(servers@.map_values(|s: KnownServer| server_view(s))[i as int] == server_view(servers@[i as int]));
            assert(config_view(config) == picks[i as int]);
            bind_extensions(&mut table, &config);
        }
        i += 1;
        proof {
            assert(picks.take(i as int).drop_last() =~= picks.take(i - 1));
            assert(picks.take(i as int).last() == picks[i - 1]);
            assert forall|k: Seq<char>| #[trigger] table.server_of(k) == bound_servers(|k: Seq<char>| None, picks.take(i as int))(k) by {
                if !(i - 1 < available.len() && available@[i - 1]) {
                    assert(picks[i - 1].2 =~= Seq::<Seq<char>>::empty());
                }
            }
        }
    }
    assert(picks.take(i as int) =~= picks);
    table
}

/// The server configuration a user entry of the settings gives.
pub open spec fn user_view(c: LspServerConfig) -> (Seq<char>, Seq<Seq<char>>, Seq<Seq<char>>) {
    (c.command@, strings_view(c.args@), strings_view(c.extensions@))
}

/// Registry of which language server handles each file extension.
pub struct LspRegistry {
    pub servers: ServerTable,
}

impl LspRegistry {
    /// The registry of the discovered servers (entry `i` of `available`
    /// says whether known server `i` was found) with the user's servers
    /// over them: a user's server wins over a discovered one for the same
    /// extension, and among the user's servers a later one wins.
    pub fn new(user_config: &Vec<LspServerConfig>, available: &Vec<bool>) -> (r: Self)
        ensures
            r.servers.wf(),
            forall|k: Seq<char>|
                #[trigger] r.servers.server_of(k) == bound_servers(
                    |k: Seq<char>| discover_spec(available@)(k),
                    user_config@.map_values(|c: LspServerConfig| user_view(c)),
                )(k),
    {
        let mut servers = discover(available);
        let ghost base = servers;
        let ghost us = user_config@.map_values(|c: LspServerConfig| user_view(c));
        let mut i: usize = 0;
        while i < user_config.len()
            invariant
                i <= user_config.len(),
                servers.wf(),
                us == user_config@.map_values(|c: LspServerConfig| user_view(c)),
                forall|k: Seq<char>| #[trigger] base.server_of(k) == discover_spec(available@)(k),
                forall|k: Seq<char>| #[trigger] servers.server_of(k) == bound_servers(
                    |k: Seq<char>| discover_spec(available@)(k),
                    us.take(i as int),
                )(k),
            decreases user_config.len() - i,
        {
            let cfg = &user_config[i];
            let config = ServerConfig {
                command: cfg.command.clone(),
                args: copy_strings(&cfg.args),
                extensions: copy_strings(&cfg.extensions),
            };
            assert(config_view(config) == us[i as int]);
            bind_extensions(&mut servers, &config);
            i += 1;
            proof {
                assert(us.take(i as int).drop_last() =~= us.take(i - 1));
                assert(us.take(i as int).last() == us[i - 1]);
            }
        }
        assert(us.take(i as int) =~= us);
        LspRegistry { servers }
    }

    /// The number of extensions with a server.
    pub fn server_count(&self) -> (r: usize)
        ensures
            r == self.servers.entries.len(),
    {
        self.servers.len()
    }

    /// Whether some server handles the extension.
    pub fn has_server_for(&self, ext: &str) -> (r: bool)
        ensures
            r == self.servers.server_of(ext@) is Some,
    {
        self.servers.get(ext).is_some()
    }

    /// The server for an extension, if any.
    pub fn server_for(&self, ext: &str) -> (r: Option<&ServerConfig>)
        ensures
            match r {
                Some(c) => self.servers.server_of(ext@) == Some(config_view(*c)),
                None => self.servers.server_of(ext@) is None,
            },
    {
        self.servers.get(ext)
    }
}

/// What discovery finds for each extension, given which known servers are
/// present.
pub open spec fn discover_spec(available: Seq<bool>) -> spec_fn(Seq<char>) -> Option<(Seq<char>, Seq<Seq<char>>, Seq<Seq<char>>)> {
    bound_servers(
        |k: Seq<char>| None,
        Seq::new(
            known_server_table().len(),
            |i: int| if i < available.len() && available[i] {
                (known_server_table()[i].0, known_server_table()[i].2, known_server_table()[i].1)
            } else {
                (Seq::empty(), Seq::empty(), Seq::empty())
            },
        ),
    )
}

} // verus!
