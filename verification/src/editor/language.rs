//! Language identifiers from file extensions.
use vstd::prelude::*;
use crate::path::{extension_of, path_extension};
use crate::text::{lowercase, to_lowercase};

verus! {

/// Whether `s` holds exactly the characters of `lit`.
pub fn string_is(s: &String, lit: &str) -> (r: bool)
    ensures
        r == (s@ == lit@),
{
    *s == lit.to_owned()
}

/// The LSP language identifier for a lowercase file extension.
pub open spec fn language_for_extension(e: Seq<char>) -> Seq<char> {
    if e == "rs"@ { "rust"@ }
    else if e == "py"@ { "python"@ }
    else if e == "js"@ { "javascript"@ }
    else if e == "jsx"@ { "javascriptreact"@ }
    else if e == "ts"@ { "typescript"@ }
    else if e == "tsx"@ { "typescriptreact"@ }
    else if e == "c"@ { "c"@ }
    else if e == "cpp"@ || e == "cc"@ || e == "cxx"@ || e == "h"@ || e == "hpp"@ { "cpp"@ }
    else if e == "go"@ { "go"@ }
    else if e == "java"@ { "java"@ }
    else if e == "rb"@ { "ruby"@ }
    else if e == "sh"@ || e == "bash"@ || e == "zsh"@ { "shellscript"@ }
    else if e == "json"@ { "json"@ }
    else if e == "yaml"@ || e == "yml"@ { "yaml"@ }
    else if e == "toml"@ { "toml"@ }
    else if e == "xml"@ { "xml"@ }
    else if e == "html"@ || e == "htm"@ { "html"@ }
    else if e == "css"@ { "css"@ }
    else if e == "scss"@ { "scss"@ }
    else if e == "md"@ || e == "markdown"@ { "markdown"@ }
    else if e == "sql"@ { "sql"@ }
    else if e == "lua"@ { "lua"@ }
    else if e == "swift"@ { "swift"@ }
    else if e == "kt"@ || e == "kts"@ { "kotlin"@ }
    else if e == "zig"@ { "zig"@ }
    else if e == "r"@ { "r"@ }
    else if e == "dart"@ { "dart"@ }
    else if e == "ex"@ || e == "exs"@ { "elixir"@ }
    else if e == "erl"@ || e == "hrl"@ { "erlang"@ }
    else if e == "hs"@ { "haskell"@ }
    else if e == "ml"@ || e == "mli"@ { "ocaml"@ }
    else { "plaintext"@ }
}

proof fn lemma_lang_c()
    ensures
        language_for_extension("c"@) == "c"@,
{
    reveal_strlit("c"); reveal_strlit("js"); reveal_strlit("jsx"); reveal_strlit("py"); reveal_strlit("rs"); reveal_strlit("ts"); reveal_strlit("tsx");
    assert("c"@.len() == 1 && "js"@.len() == 2 && "jsx"@.len() == 3 && "py"@.len() == 2 && "rs"@.len() == 2 && "ts"@.len() == 2 && "tsx"@.len() == 3);
    assert("c"@ != "rs"@ && "c"@ != "py"@ && "c"@ != "js"@ && "c"@ != "jsx"@ && "c"@ != "ts"@ && "c"@ != "tsx"@);
}

proof fn lemma_lang_cpp()
    ensures
        language_for_extension("cpp"@) == "cpp"@ && language_for_extension("cc"@) == "cpp"@ && language_for_extension("cxx"@) == "cpp"@ && language_for_extension("h"@) == "cpp"@ && language_for_extension("hpp"@) == "cpp"@,
{
    reveal_strlit("c"); reveal_strlit("cc"); reveal_strlit("cpp"); reveal_strlit("cxx"); reveal_strlit("h"); reveal_strlit("hpp"); reveal_strlit("js"); reveal_strlit("jsx"); reveal_strlit("py"); reveal_strlit("rs"); reveal_strlit("ts"); reveal_strlit("tsx");
    assert("c"@.len() == 1 && "cc"@.len() == 2 && "cpp"@.len() == 3 && "cxx"@.len() == 3 && "h"@.len() == 1 && "hpp"@.len() == 3 && "js"@.len() == 2 && "jsx"@.len() == 3 && "py"@.len() == 2 && "rs"@.len() == 2 && "ts"@.len() == 2 && "tsx"@.len() == 3);
    assert("cpp"@[0] != "jsx"@[0] && "cpp"@[0] != "tsx"@[0]);
    assert("cpp"@ != "rs"@ && "cpp"@ != "py"@ && "cpp"@ != "js"@ && "cpp"@ != "jsx"@ && "cpp"@ != "ts"@ && "cpp"@ != "tsx"@ && "cpp"@ != "c"@);
    assert("cc"@[0] != "rs"@[0] && "cc"@[0] != "py"@[0] && "cc"@[0] != "js"@[0] && "cc"@[0] != "ts"@[0]);
    assert("cc"@ != "rs"@ && "cc"@ != "py"@ && "cc"@ != "js"@ && "cc"@ != "jsx"@ && "cc"@ != "ts"@ && "cc"@ != "tsx"@ && "cc"@ != "c"@);
    assert("cxx"@[0] != "jsx"@[0] && "cxx"@[0] != "tsx"@[0]);
    assert("cxx"@ != "rs"@ && "cxx"@ != "py"@ && "cxx"@ != "js"@ && "cxx"@ != "jsx"@ && "cxx"@ != "ts"@ && "cxx"@ != "tsx"@ && "cxx"@ != "c"@);
    assert("h"@[0] != "c"@[0]);
    assert("h"@ != "rs"@ && "h"@ != "py"@ && "h"@ != "js"@ && "h"@ != "jsx"@ && "h"@ != "ts"@ && "h"@ != "tsx"@ && "h"@ != "c"@);
    assert("hpp"@[0] != "jsx"@[0] && "hpp"@[0] != "tsx"@[0]);
    assert("hpp"@ != "rs"@ && "hpp"@ != "py"@ && "hpp"@ != "js"@ && "hpp"@ != "jsx"@ && "hpp"@ != "ts"@ && "hpp"@ != "tsx"@ && "hpp"@ != "c"@);
}

proof fn lemma_lang_css()
    ensures
        language_for_extension("css"@) == "css"@,
{
    reveal_strlit("bash"); reveal_strlit("c"); reveal_strlit("cc"); reveal_strlit("cpp"); reveal_strlit("css"); reveal_strlit("cxx"); reveal_strlit("go"); reveal_strlit("h"); reveal_strlit("hpp"); reveal_strlit("htm"); reveal_strlit("html"); reveal_strlit("java"); reveal_strlit("js"); reveal_strlit("json"); reveal_strlit("jsx"); reveal_strlit("py"); reveal_strlit("rb"); reveal_strlit("rs"); reveal_strlit("sh"); reveal_strlit("toml"); reveal_strlit("ts"); reveal_strlit("tsx"); reveal_strlit("xml"); reveal_strlit("yaml"); reveal_strlit("yml"); reveal_strlit("zsh");
    assert("bash"@.len() == 4 && "c"@.len() == 1 && "cc"@.len() == 2 && "cpp"@.len() == 3 && "css"@.len() == 3 && "cxx"@.len() == 3 && "go"@.len() == 2 && "h"@.len() == 1 && "hpp"@.len() == 3 && "htm"@.len() == 3 && "html"@.len() == 4 && "java"@.len() == 4 && "js"@.len() == 2 && "json"@.len() == 4 && "jsx"@.len() == 3 && "py"@.len() == 2 && "rb"@.len() == 2 && "rs"@.len() == 2 && "sh"@.len() == 2 && "toml"@.len() == 4 && "ts"@.len() == 2 && "tsx"@.len() == 3 && "xml"@.len() == 3 && "yaml"@.len() == 4 && "yml"@.len() == 3 && "zsh"@.len() == 3);
    assert("css"@[0] != "jsx"@[0] && "css"@[0] != "tsx"@[0] && "css"@[1] != "cpp"@[1] && "css"@[1] != "cxx"@[1] && "css"@[0] != "hpp"@[0] && "css"@[0] != "zsh"@[0] && "css"@[0] != "yml"@[0] && "css"@[0] != "xml"@[0] && "css"@[0] != "htm"@[0]);
    assert("css"@ != "rs"@ && "css"@ != "py"@ && "css"@ != "js"@ && "css"@ != "jsx"@ && "css"@ != "ts"@ && "css"@ != "tsx"@ && "css"@ != "c"@ && "css"@ != "cpp"@ && "css"@ != "cc"@ && "css"@ != "cxx"@ && "css"@ != "h"@ && "css"@ != "hpp"@ && "css"@ != "go"@ && "css"@ != "java"@ && "css"@ != "rb"@ && "css"@ != "sh"@ && "css"@ != "bash"@ && "css"@ != "zsh"@ && "css"@ != "json"@ && "css"@ != "yaml"@ && "css"@ != "yml"@ && "css"@ != "toml"@ && "css"@ != "xml"@ && "css"@ != "html"@ && "css"@ != "htm"@);
}

proof fn lemma_lang_dart()
    ensures
        language_for_extension("dart"@) == "dart"@,
{
    reveal_strlit("bash"); reveal_strlit("c"); reveal_strlit("cc"); reveal_strlit("cpp"); reveal_strlit("css"); reveal_strlit("cxx"); reveal_strlit("dart"); reveal_strlit("go"); reveal_strlit("h"); reveal_strlit("hpp"); reveal_strlit("htm"); reveal_strlit("html"); reveal_strlit("java"); reveal_strlit("js"); reveal_strlit("json"); reveal_strlit("jsx"); reveal_strlit("kt"); reveal_strlit("kts"); reveal_strlit("lua"); reveal_strlit("markdown"); reveal_strlit("md"); reveal_strlit("py"); reveal_strlit("r"); reveal_strlit("rb"); reveal_strlit("rs"); reveal_strlit("scss"); reveal_strlit("sh"); reveal_strlit("sql"); reveal_strlit("swift"); reveal_strlit("toml"); reveal_strlit("ts"); reveal_strlit("tsx"); reveal_strlit("xml"); reveal_strlit("yaml"); reveal_strlit("yml"); reveal_strlit("zig"); reveal_strlit("zsh");
    assert("bash"@.len() == 4 && "c"@.len() == 1 && "cc"@.len() == 2 && "cpp"@.len() == 3 && "css"@.len() == 3 && "cxx"@.len() == 3 && "dart"@.len() == 4 && "go"@.len() == 2 && "h"@.len() == 1 && "hpp"@.len() == 3 && "htm"@.len() == 3 && "html"@.len() == 4 && "java"@.len() == 4 && "js"@.len() == 2 && "json"@.len() == 4 && "jsx"@.len() == 3 && "kt"@.len() == 2 && "kts"@.len() == 3 && "lua"@.len() == 3 && "markdown"@.len() == 8 && "md"@.len() == 2 && "py"@.len() == 2 && "r"@.len() == 1 && "rb"@.len() == 2 && "rs"@.len() == 2 && "scss"@.len() == 4 && "sh"@.len() == 2 && "sql"@.len() == 3 && "swift"@.len() == 5 && "toml"@.len() == 4 && "ts"@.len() == 2 && "tsx"@.len() == 3 && "xml"@.len() == 3 && "yaml"@.len() == 4 && "yml"@.len() == 3 && "zig"@.len() == 3 && "zsh"@.len() == 3);
    assert("dart"@[0] != "java"@[0] && "dart"@[0] != "bash"@[0] && "dart"@[0] != "json"@[0] && "dart"@[0] != "yaml"@[0] && "dart"@[0] != "toml"@[0] && "dart"@[0] != "html"@[0] && "dart"@[0] != "scss"@[0]);
    assert("dart"@ != "rs"@ && "dart"@ != "py"@ && "dart"@ != "js"@ && "dart"@ != "jsx"@ && "dart"@ != "ts"@ && "dart"@ != "tsx"@ && "dart"@ != "c"@ && "dart"@ != "cpp"@ && "dart"@ != "cc"@ && "dart"@ != "cxx"@ && "dart"@ != "h"@ && "dart"@ != "hpp"@ && "dart"@ != "go"@ && "dart"@ != "java"@ && "dart"@ != "rb"@ && "dart"@ != "sh"@ && "dart"@ != "bash"@ && "dart"@ != "zsh"@ && "dart"@ != "json"@ && "dart"@ != "yaml"@ && "dart"@ != "yml"@ && "dart"@ != "toml"@ && "dart"@ != "xml"@ && "dart"@ != "html"@ && "dart"@ != "htm"@ && "dart"@ != "css"@ && "dart"@ != "scss"@ && "dart"@ != "md"@ && "dart"@ != "markdown"@ && "dart"@ != "sql"@ && "dart"@ != "lua"@ && "dart"@ != "swift"@ && "dart"@ != "kt"@ && "dart"@ != "kts"@ && "dart"@ != "zig"@ && "dart"@ != "r"@);
}

proof fn lemma_lang_elixir()
    ensures
        language_for_extension("ex"@) == "elixir"@ && language_for_extension("exs"@) == "elixir"@,
{
    reveal_strlit("bash"); reveal_strlit("c"); reveal_strlit("cc"); reveal_strlit("cpp"); reveal_strlit("css"); reveal_strlit("cxx"); reveal_strlit("dart"); reveal_strlit("elixir"); reveal_strlit("ex"); reveal_strlit("exs"); reveal_strlit("go"); reveal_strlit("h"); reveal_strlit("hpp"); reveal_strlit("htm"); reveal_strlit("html"); reveal_strlit("java"); reveal_strlit("js"); reveal_strlit("json"); reveal_strlit("jsx"); reveal_strlit("kt"); reveal_strlit("kts"); reveal_strlit("lua"); reveal_strlit("markdown"); reveal_strlit("md"); reveal_strlit("py"); reveal_strlit("r"); reveal_strlit("rb"); reveal_strlit("rs"); reveal_strlit("scss"); reveal_strlit("sh"); reveal_strlit("sql"); reveal_strlit("swift"); reveal_strlit("toml"); reveal_strlit("ts"); reveal_strlit("tsx"); reveal_strlit("xml"); reveal_strlit("yaml"); reveal_strlit("yml"); reveal_strlit("zig"); reveal_strlit("zsh");
    assert("bash"@.len() == 4 && "c"@.len() == 1 && "cc"@.len() == 2 && "cpp"@.len() == 3 && "css"@.len() == 3 && "cxx"@.len() == 3 && "dart"@.len() == 4 && "ex"@.len() == 2 && "exs"@.len() == 3 && "go"@.len() == 2 && "h"@.len() == 1 && "hpp"@.len() == 3 && "htm"@.len() == 3 && "html"@.len() == 4 && "java"@.len() == 4 && "js"@.len() == 2 && "json"@.len() == 4 && "jsx"@.len() == 3 && "kt"@.len() == 2 && "kts"@.len() == 3 && "lua"@.len() == 3 && "markdown"@.len() == 8 && "md"@.len() == 2 && "py"@.len() == 2 && "r"@.len() == 1 && "rb"@.len() == 2 && "rs"@.len() == 2 && "scss"@.len() == 4 && "sh"@.len() == 2 && "sql"@.len() == 3 && "swift"@.len() == 5 && "toml"@.len() == 4 && "ts"@.len() == 2 && "tsx"@.len() == 3 && "xml"@.len() == 3 && "yaml"@.len() == 4 && "yml"@.len() == 3 && "zig"@.len() == 3 && "zsh"@.len() == 3);
    assert("ex"@[0] != "rs"@[0] && "ex"@[0] != "py"@[0] && "ex"@[0] != "js"@[0] && "ex"@[0] != "ts"@[0] && "ex"@[0] != "cc"@[0] && "ex"@[0] != "go"@[0] && "ex"@[0] != "rb"@[0] && "ex"@[0] != "sh"@[0] && "ex"@[0] != "md"@[0] && "ex"@[0] != "kt"@[0]);
    assert("ex"@ != "rs"@ && "ex"@ != "py"@ && "ex"@ != "js"@ && "ex"@ != "jsx"@ && "ex"@ != "ts"@ && "ex"@ != "tsx"@ && "ex"@ != "c"@ && "ex"@ != "cpp"@ && "ex"@ != "cc"@ && "ex"@ != "cxx"@ && "ex"@ != "h"@ && "ex"@ != "hpp"@ && "ex"@ != "go"@ && "ex"@ != "java"@ && "ex"@ != "rb"@ && "ex"@ != "sh"@ && "ex"@ != "bash"@ && "ex"@ != "zsh"@ && "ex"@ != "json"@ && "ex"@ != "yaml"@ && "ex"@ != "yml"@ && "ex"@ != "toml"@ && "ex"@ != "xml"@ && "ex"@ != "html"@ && "ex"@ != "htm"@ && "ex"@ != "css"@ && "ex"@ != "scss"@ && "ex"@ != "md"@ && "ex"@ != "markdown"@ && "ex"@ != "sql"@ && "ex"@ != "lua"@ && "ex"@ != "swift"@ && "ex"@ != "kt"@ && "ex"@ != "kts"@ && "ex"@ != "zig"@ && "ex"@ != "r"@ && "ex"@ != "dart"@);
    assert("exs"@[0] != "jsx"@[0] && "exs"@[0] != "tsx"@[0] && "exs"@[0] != "cpp"@[0] && "exs"@[0] != "cxx"@[0] && "exs"@[0] != "hpp"@[0] && "exs"@[0] != "zsh"@[0] && "exs"@[0] != "yml"@[0] && "exs"@[0] != "xml"@[0] && "exs"@[0] != "htm"@[0] && "exs"@[0] != "css"@[0] && "exs"@[0] != "sql"@[0] && "exs"@[0] != "lua"@[0] && "exs"@[0] != "kts"@[0] && "exs"@[0] != "zig"@[0]);
    assert("exs"@ != "rs"@ && "exs"@ != "py"@ && "exs"@ != "js"@ && "exs"@ != "jsx"@ && "exs"@ != "ts"@ && "exs"@ != "tsx"@ && "exs"@ != "c"@ && "exs"@ != "cpp"@ && "exs"@ != "cc"@ && "exs"@ != "cxx"@ && "exs"@ != "h"@ && "exs"@ != "hpp"@ && "exs"@ != "go"@ && "exs"@ != "java"@ && "exs"@ != "rb"@ && "exs"@ != "sh"@ && "exs"@ != "bash"@ && "exs"@ != "zsh"@ && "exs"@ != "json"@ && "exs"@ != "yaml"@ && "exs"@ != "yml"@ && "exs"@ != "toml"@ && "exs"@ != "xml"@ && "exs"@ != "html"@ && "exs"@ != "htm"@ && "exs"@ != "css"@ && "exs"@ != "scss"@ && "exs"@ != "md"@ && "exs"@ != "markdown"@ && "exs"@ != "sql"@ && "exs"@ != "lua"@ && "exs"@ != "swift"@ && "exs"@ != "kt"@ && "exs"@ != "kts"@ && "exs"@ != "zig"@ && "exs"@ != "r"@ && "exs"@ != "dart"@);
}

proof fn lemma_lang_erlang()
    ensures
        language_for_extension("erl"@) == "erlang"@ && language_for_extension("hrl"@) == "erlang"@,
{
    reveal_strlit("bash"); reveal_strlit("c"); reveal_strlit("cc"); reveal_strlit("cpp"); reveal_strlit("css"); reveal_strlit("cxx"); reveal_strlit("dart"); reveal_strlit("erl"); reveal_strlit("erlang"); reveal_strlit("ex"); reveal_strlit("exs"); reveal_strlit("go"); reveal_strlit("h"); reveal_strlit("hpp"); reveal_strlit("hrl"); reveal_strlit("htm"); reveal_strlit("html"); reveal_strlit("java"); reveal_strlit("js"); reveal_strlit("json"); reveal_strlit("jsx"); reveal_strlit("kt"); reveal_strlit("kts"); reveal_strlit("lua"); reveal_strlit("markdown"); reveal_strlit("md"); reveal_strlit("py"); reveal_strlit("r"); reveal_strlit("rb"); reveal_strlit("rs"); reveal_strlit("scss"); reveal_strlit("sh"); reveal_strlit("sql"); reveal_strlit("swift"); reveal_strlit("toml"); reveal_strlit("ts"); reveal_strlit("tsx"); reveal_strlit("xml"); reveal_strlit("yaml"); reveal_strlit("yml"); reveal_strlit("zig"); reveal_strlit("zsh");
    assert("bash"@.len() == 4 && "c"@.len() == 1 && "cc"@.len() == 2 && "cpp"@.len() == 3 && "css"@.len() == 3 && "cxx"@.len() == 3 && "dart"@.len() == 4 && "erl"@.len() == 3 && "ex"@.len() == 2 && "exs"@.len() == 3 && "go"@.len() == 2 && "h"@.len() == 1 && "hpp"@.len() == 3 && "hrl"@.len() == 3 && "htm"@.len() == 3 && "html"@.len() == 4 && "java"@.len() == 4 && "js"@.len() == 2 && "json"@.len() == 4 && "jsx"@.len() == 3 && "kt"@.len() == 2 && "kts"@.len() == 3 && "lua"@.len() == 3 && "markdown"@.len() == 8 && "md"@.len() == 2 && "py"@.len() == 2 && "r"@.len() == 1 && "rb"@.len() == 2 && "rs"@.len() == 2 && "scss"@.len() == 4 && "sh"@.len() == 2 && "sql"@.len() == 3 && "swift"@.len() == 5 && "toml"@.len() == 4 && "ts"@.len() == 2 && "tsx"@.len() == 3 && "xml"@.len() == 3 && "yaml"@.len() == 4 && "yml"@.len() == 3 && "zig"@.len() == 3 && "zsh"@.len() == 3);
    assert("erl"@[0] != "jsx"@[0] && "erl"@[0] != "tsx"@[0] && "erl"@[0] != "cpp"@[0] && "erl"@[0] != "cxx"@[0] && "erl"@[0] != "hpp"@[0] && "erl"@[0] != "zsh"@[0] && "erl"@[0] != "yml"@[0] && "erl"@[0] != "xml"@[0] && "erl"@[0] != "htm"@[0] && "erl"@[0] != "css"@[0] && "erl"@[0] != "sql"@[0] && "erl"@[0] != "lua"@[0] && "erl"@[0] != "kts"@[0] && "erl"@[0] != "zig"@[0] && "erl"@[1] != "exs"@[1]);
    assert("erl"@ != "rs"@ && "erl"@ != "py"@ && "erl"@ != "js"@ && "erl"@ != "jsx"@ && "erl"@ != "ts"@ && "erl"@ != "tsx"@ && "erl"@ != "c"@ && "erl"@ != "cpp"@ && "erl"@ != "cc"@ && "erl"@ != "cxx"@ && "erl"@ != "h"@ && "erl"@ != "hpp"@ && "erl"@ != "go"@ && "erl"@ != "java"@ && "erl"@ != "rb"@ && "erl"@ != "sh"@ && "erl"@ != "bash"@ && "erl"@ != "zsh"@ && "erl"@ != "json"@ && "erl"@ != "yaml"@ && "erl"@ != "yml"@ && "erl"@ != "toml"@ && "erl"@ != "xml"@ && "erl"@ != "html"@ && "erl"@ != "htm"@ && "erl"@ != "css"@ && "erl"@ != "scss"@ && "erl"@ != "md"@ && "erl"@ != "markdown"@ && "erl"@ != "sql"@ && "erl"@ != "lua"@ && "erl"@ != "swift"@ && "erl"@ != "kt"@ && "erl"@ != "kts"@ && "erl"@ != "zig"@ && "erl"@ != "r"@ && "erl"@ != "dart"@ && "erl"@ != "ex"@ && "erl"@ != "exs"@);
    assert("hrl"@[0] != "jsx"@[0] && "hrl"@[0] != "tsx"@[0] && "hrl"@[0] != "cpp"@[0] && "hrl"@[0] != "cxx"@[0] && "hrl"@[1] != "hpp"@[1] && "hrl"@[0] != "zsh"@[0] && "hrl"@[0] != "yml"@[0] && "hrl"@[0] != "xml"@[0] && "hrl"@[1] != "htm"@[1] && "hrl"@[0] != "css"@[0] && "hrl"@[0] != "sql"@[0] && "hrl"@[0] != "lua"@[0] && "hrl"@[0] != "kts"@[0] && "hrl"@[0] != "zig"@[0] && "hrl"@[0] != "exs"@[0]);
    assert("hrl"@ != "rs"@ && "hrl"@ != "py"@ && "hrl"@ != "js"@ && "hrl"@ != "jsx"@ && "hrl"@ != "ts"@ && "hrl"@ != "tsx"@ && "hrl"@ != "c"@ && "hrl"@ != "cpp"@ && "hrl"@ != "cc"@ && "hrl"@ != "cxx"@ && "hrl"@ != "h"@ && "hrl"@ != "hpp"@ && "hrl"@ != "go"@ && "hrl"@ != "java"@ && "hrl"@ != "rb"@ && "hrl"@ != "sh"@ && "hrl"@ != "bash"@ && "hrl"@ != "zsh"@ && "hrl"@ != "json"@ && "hrl"@ != "yaml"@ && "hrl"@ != "yml"@ && "hrl"@ != "toml"@ && "hrl"@ != "xml"@ && "hrl"@ != "html"@ && "hrl"@ != "htm"@ && "hrl"@ != "css"@ && "hrl"@ != "scss"@ && "hrl"@ != "md"@ && "hrl"@ != "markdown"@ && "hrl"@ != "sql"@ && "hrl"@ != "lua"@ && "hrl"@ != "swift"@ && "hrl"@ != "kt"@ && "hrl"@ != "kts"@ && "hrl"@ != "zig"@ && "hrl"@ != "r"@ && "hrl"@ != "dart"@ && "hrl"@ != "ex"@ && "hrl"@ != "exs"@);
}

proof fn lemma_lang_go()
    ensures
        language_for_extension("go"@) == "go"@,
{
    reveal_strlit("c"); reveal_strlit("cc"); reveal_strlit("cpp"); reveal_strlit("cxx"); reveal_strlit("go"); reveal_strlit("h"); reveal_strlit("hpp"); reveal_strlit("js"); reveal_strlit("jsx"); reveal_strlit("py"); reveal_strlit("rs"); reveal_strlit("ts"); reveal_strlit("tsx");
    assert("c"@.len() == 1 && "cc"@.len() == 2 && "cpp"@.len() == 3 && "cxx"@.len() == 3 && "go"@.len() == 2 && "h"@.len() == 1 && "hpp"@.len() == 3 && "js"@.len() == 2 && "jsx"@.len() == 3 && "py"@.len() == 2 && "rs"@.len() == 2 && "ts"@.len() == 2 && "tsx"@.len() == 3);
    assert("go"@[0] != "rs"@[0] && "go"@[0] != "py"@[0] && "go"@[0] != "js"@[0] && "go"@[0] != "ts"@[0] && "go"@[0] != "cc"@[0]);
    assert("go"@ != "rs"@ && "go"@ != "py"@ && "go"@ != "js"@ && "go"@ != "jsx"@ && "go"@ != "ts"@ && "go"@ != "tsx"@ && "go"@ != "c"@ && "go"@ != "cpp"@ && "go"@ != "cc"@ && "go"@ != "cxx"@ && "go"@ != "h"@ && "go"@ != "hpp"@);
}

proof fn lemma_lang_haskell()
    ensures
        language_for_extension("hs"@) == "haskell"@,
{
    reveal_strlit("bash"); reveal_strlit("c"); reveal_strlit("cc"); reveal_strlit("cpp"); reveal_strlit("css"); reveal_strlit("cxx"); reveal_strlit("dart"); reveal_strlit("erl"); reveal_strlit("ex"); reveal_strlit("exs"); reveal_strlit("go"); reveal_strlit("h"); reveal_strlit("haskell"); reveal_strlit("hpp"); reveal_strlit("hrl"); reveal_strlit("hs"); reveal_strlit("htm"); reveal_strlit("html"); reveal_strlit("java"); reveal_strlit("js"); reveal_strlit("json"); reveal_strlit("jsx"); reveal_strlit("kt"); reveal_strlit("kts"); reveal_strlit("lua"); reveal_strlit("markdown"); reveal_strlit("md"); reveal_strlit("py"); reveal_strlit("r"); reveal_strlit("rb"); reveal_strlit("rs"); reveal_strlit("scss"); reveal_strlit("sh"); reveal_strlit("sql"); reveal_strlit("swift"); reveal_strlit("toml"); reveal_strlit("ts"); reveal_strlit("tsx"); reveal_strlit("xml"); reveal_strlit("yaml"); reveal_strlit("yml"); reveal_strlit("zig"); reveal_strlit("zsh");
    assert("bash"@.len() == 4 && "c"@.len() == 1 && "cc"@.len() == 2 && "cpp"@.len() == 3 && "css"@.len() == 3 && "cxx"@.len() == 3 && "dart"@.len() == 4 && "erl"@.len() == 3 && "ex"@.len() == 2 && "exs"@.len() == 3 && "go"@.len() == 2 && "h"@.len() == 1 && "hpp"@.len() == 3 && "hrl"@.len() == 3 && "hs"@.len() == 2 && "htm"@.len() == 3 && "html"@.len() == 4 && "java"@.len() == 4 && "js"@.len() == 2 && "json"@.len() == 4 && "jsx"@.len() == 3 && "kt"@.len() == 2 && "kts"@.len() == 3 && "lua"@.len() == 3 && "markdown"@.len() == 8 && "md"@.len() == 2 && "py"@.len() == 2 && "r"@.len() == 1 && "rb"@.len() == 2 && "rs"@.len() == 2 && "scss"@.len() == 4 && "sh"@.len() == 2 && "sql"@.len() == 3 && "swift"@.len() == 5 && "toml"@.len() == 4 && "ts"@.len() == 2 && "tsx"@.len() == 3 && "xml"@.len() == 3 && "yaml"@.len() == 4 && "yml"@.len() == 3 && "zig"@.len() == 3 && "zsh"@.len() == 3);
    assert("hs"@[0] != "rs"@[0] && "hs"@[0] != "py"@[0] && "hs"@[0] != "js"@[0] && "hs"@[0] != "ts"@[0] && "hs"@[0] != "cc"@[0] && "hs"@[0] != "go"@[0] && "hs"@[0] != "rb"@[0] && "hs"@[0] != "sh"@[0] && "hs"@[0] != "md"@[0] && "hs"@[0] != "kt"@[0] && "hs"@[0] != "ex"@[0]);
    assert("hs"@ != "rs"@ && "hs"@ != "py"@ && "hs"@ != "js"@ && "hs"@ != "jsx"@ && "hs"@ != "ts"@ && "hs"@ != "tsx"@ && "hs"@ != "c"@ && "hs"@ != "cpp"@ && "hs"@ != "cc"@ && "hs"@ != "cxx"@ && "hs"@ != "h"@ && "hs"@ != "hpp"@ && "hs"@ != "go"@ && "hs"@ != "java"@ && "hs"@ != "rb"@ && "hs"@ != "sh"@ && "hs"@ != "bash"@ && "hs"@ != "zsh"@ && "hs"@ != "json"@ && "hs"@ != "yaml"@ && "hs"@ != "yml"@ && "hs"@ != "toml"@ && "hs"@ != "xml"@ && "hs"@ != "html"@ && "hs"@ != "htm"@ && "hs"@ != "css"@ && "hs"@ != "scss"@ && "hs"@ != "md"@ && "hs"@ != "markdown"@ && "hs"@ != "sql"@ && "hs"@ != "lua"@ && "hs"@ != "swift"@ && "hs"@ != "kt"@ && "hs"@ != "kts"@ && "hs"@ != "zig"@ && "hs"@ != "r"@ && "hs"@ != "dart"@ && "hs"@ != "ex"@ && "hs"@ != "exs"@ && "hs"@ != "erl"@ && "hs"@ != "hrl"@);
}

proof fn lemma_lang_html()
    ensures
        language_for_extension("html"@) == "html"@ && language_for_extension("htm"@) == "html"@,
{
    reveal_strlit("bash"); reveal_strlit("c"); reveal_strlit("cc"); reveal_strlit("cpp"); reveal_strlit("cxx"); reveal_strlit("go"); reveal_strlit("h"); reveal_strlit("hpp"); reveal_strlit("htm"); reveal_strlit("html"); reveal_strlit("java"); reveal_strlit("js"); reveal_strlit("json"); reveal_strlit("jsx"); reveal_strlit("py"); reveal_strlit("rb"); reveal_strlit("rs"); reveal_strlit("sh"); reveal_strlit("toml"); reveal_strlit("ts"); reveal_strlit("tsx"); reveal_strlit("xml"); reveal_strlit("yaml"); reveal_strlit("yml"); reveal_strlit("zsh");
    assert("bash"@.len() == 4 && "c"@.len() == 1 && "cc"@.len() == 2 && "cpp"@.len() == 3 && "cxx"@.len() == 3 && "go"@.len() == 2 && "h"@.len() == 1 && "hpp"@.len() == 3 && "htm"@.len() == 3 && "html"@.len() == 4 && "java"@.len() == 4 && "js"@.len() == 2 && "json"@.len() == 4 && "jsx"@.len() == 3 && "py"@.len() == 2 && "rb"@.len() == 2 && "rs"@.len() == 2 && "sh"@.len() == 2 && "toml"@.len() == 4 && "ts"@.len() == 2 && "tsx"@.len() == 3 && "xml"@.len() == 3 && "yaml"@.len() == 4 && "yml"@.len() == 3 && "zsh"@.len() == 3);
    assert("html"@[0] != "java"@[0] && "html"@[0] != "bash"@[0] && "html"@[0] != "json"@[0] && "html"@[0] != "yaml"@[0] && "html"@[0] != "toml"@[0]);
    assert("html"@ != "rs"@ && "html"@ != "py"@ && "html"@ != "js"@ && "html"@ != "jsx"@ && "html"@ != "ts"@ && "html"@ != "tsx"@ && "html"@ != "c"@ && "html"@ != "cpp"@ && "html"@ != "cc"@ && "html"@ != "cxx"@ && "html"@ != "h"@ && "html"@ != "hpp"@ && "html"@ != "go"@ && "html"@ != "java"@ && "html"@ != "rb"@ && "html"@ != "sh"@ && "html"@ != "bash"@ && "html"@ != "zsh"@ && "html"@ != "json"@ && "html"@ != "yaml"@ && "html"@ != "yml"@ && "html"@ != "toml"@ && "html"@ != "xml"@);
    assert("htm"@[0] != "jsx"@[0] && "htm"@[0] != "tsx"@[0] && "htm"@[0] != "cpp"@[0] && "htm"@[0] != "cxx"@[0] && "htm"@[1] != "hpp"@[1] && "htm"@[0] != "zsh"@[0] && "htm"@[0] != "yml"@[0] && "htm"@[0] != "xml"@[0]);
    assert("htm"@ != "rs"@ && "htm"@ != "py"@ && "htm"@ != "js"@ && "htm"@ != "jsx"@ && "htm"@ != "ts"@ && "htm"@ != "tsx"@ && "htm"@ != "c"@ && "htm"@ != "cpp"@ && "htm"@ != "cc"@ && "htm"@ != "cxx"@ && "htm"@ != "h"@ && "htm"@ != "hpp"@ && "htm"@ != "go"@ && "htm"@ != "java"@ && "htm"@ != "rb"@ && "htm"@ != "sh"@ && "htm"@ != "bash"@ && "htm"@ != "zsh"@ && "htm"@ != "json"@ && "htm"@ != "yaml"@ && "htm"@ != "yml"@ && "htm"@ != "toml"@ && "htm"@ != "xml"@);
}

proof fn lemma_lang_java()
    ensures
        language_for_extension("java"@) == "java"@,
{
    reveal_strlit("c"); reveal_strlit("cc"); reveal_strlit("cpp"); reveal_strlit("cxx"); reveal_strlit("go"); reveal_strlit("h"); reveal_strlit("hpp"); reveal_strlit("java"); reveal_strlit("js"); reveal_strlit("jsx"); reveal_strlit("py"); reveal_strlit("rs"); reveal_strlit("ts"); reveal_strlit("tsx");
    assert("c"@.len() == 1 && "cc"@.len() == 2 && "cpp"@.len() == 3 && "cxx"@.len() == 3 && "go"@.len() == 2 && "h"@.len() == 1 && "hpp"@.len() == 3 && "java"@.len() == 4 && "js"@.len() == 2 && "jsx"@.len() == 3 && "py"@.len() == 2 && "rs"@.len() == 2 && "ts"@.len() == 2 && "tsx"@.len() == 3);
    assert("java"@ != "rs"@ && "java"@ != "py"@ && "java"@ != "js"@ && "java"@ != "jsx"@ && "java"@ != "ts"@ && "java"@ != "tsx"@ && "java"@ != "c"@ && "java"@ != "cpp"@ && "java"@ != "cc"@ && "java"@ != "cxx"@ && "java"@ != "h"@ && "java"@ != "hpp"@ && "java"@ != "go"@);
}

proof fn lemma_lang_javascript()
    ensures
        language_for_extension("js"@) == "javascript"@,
{
    reveal_strlit("javascript"); reveal_strlit("js"); reveal_strlit("py"); reveal_strlit("rs");
    assert("js"@.len() == 2 && "py"@.len() == 2 && "rs"@.len() == 2);
    assert("js"@[0] != "rs"@[0] && "js"@[0] != "py"@[0]);
    assert("js"@ != "rs"@ && "js"@ != "py"@);
}

proof fn lemma_lang_javascriptreact()
    ensures
        language_for_extension("jsx"@) == "javascriptreact"@,
{
    reveal_strlit("javascriptreact"); reveal_strlit("js"); reveal_strlit("jsx"); reveal_strlit("py"); reveal_strlit("rs");
    assert("js"@.len() == 2 && "jsx"@.len() == 3 && "py"@.len() == 2 && "rs"@.len() == 2);
    assert("jsx"@ != "rs"@ && "jsx"@ != "py"@ && "jsx"@ != "js"@);
}

proof fn lemma_lang_json()
    ensures
        language_for_extension("json"@) == "json"@,
{
    reveal_strlit("bash"); reveal_strlit("c"); reveal_strlit("cc"); reveal_strlit("cpp"); reveal_strlit("cxx"); reveal_strlit("go"); reveal_strlit("h"); reveal_strlit("hpp"); reveal_strlit("java"); reveal_strlit("js"); reveal_strlit("json"); reveal_strlit("jsx"); reveal_strlit("py"); reveal_strlit("rb"); reveal_strlit("rs"); reveal_strlit("sh"); reveal_strlit("ts"); reveal_strlit("tsx"); reveal_strlit("zsh");
    assert("bash"@.len() == 4 && "c"@.len() == 1 && "cc"@.len() == 2 && "cpp"@.len() == 3 && "cxx"@.len() == 3 && "go"@.len() == 2 && "h"@.len() == 1 && "hpp"@.len() == 3 && "java"@.len() == 4 && "js"@.len() == 2 && "json"@.len() == 4 && "jsx"@.len() == 3 && "py"@.len() == 2 && "rb"@.len() == 2 && "rs"@.len() == 2 && "sh"@.len() == 2 && "ts"@.len() == 2 && "tsx"@.len() == 3 && "zsh"@.len() == 3);
    assert("json"@[1] != "java"@[1] && "json"@[0] != "bash"@[0]);
    assert("json"@ != "rs"@ && "json"@ != "py"@ && "json"@ != "js"@ && "json"@ != "jsx"@ && "json"@ != "ts"@ && "json"@ != "tsx"@ && "json"@ != "c"@ && "json"@ != "cpp"@ && "json"@ != "cc"@ && "json"@ != "cxx"@ && "json"@ != "h"@ && "json"@ != "hpp"@ && "json"@ != "go"@ && "json"@ != "java"@ && "json"@ != "rb"@ && "json"@ != "sh"@ && "json"@ != "bash"@ && "json"@ != "zsh"@);
}

proof fn lemma_lang_kotlin()
    ensures
        language_for_extension("kt"@) == "kotlin"@ && language_for_extension("kts"@) == "kotlin"@,
{
    reveal_strlit("bash"); reveal_strlit("c"); reveal_strlit("cc"); reveal_strlit("cpp"); reveal_strlit("css"); reveal_strlit("cxx"); reveal_strlit("go"); reveal_strlit("h"); reveal_strlit("hpp"); reveal_strlit("htm"); reveal_strlit("html"); reveal_strlit("java"); reveal_strlit("js"); reveal_strlit("json"); reveal_strlit("jsx"); reveal_strlit("kotlin"); reveal_strlit("kt"); reveal_strlit("kts"); reveal_strlit("lua"); reveal_strlit("markdown"); reveal_strlit("md"); reveal_strlit("py"); reveal_strlit("rb"); reveal_strlit("rs"); reveal_strlit("scss"); reveal_strlit("sh"); reveal_strlit("sql"); reveal_strlit("swift"); reveal_strlit("toml"); reveal_strlit("ts"); reveal_strlit("tsx"); reveal_strlit("xml"); reveal_strlit("yaml"); reveal_strlit("yml"); reveal_strlit("zsh");
    assert("bash"@.len() == 4 && "c"@.len() == 1 && "cc"@.len() == 2 && "cpp"@.len() == 3 && "css"@.len() == 3 && "cxx"@.len() == 3 && "go"@.len() == 2 && "h"@.len() == 1 && "hpp"@.len() == 3 && "htm"@.len() == 3 && "html"@.len() == 4 && "java"@.len() == 4 && "js"@.len() == 2 && "json"@.len() == 4 && "jsx"@.len() == 3 && "kt"@.len() == 2 && "kts"@.len() == 3 && "lua"@.len() == 3 && "markdown"@.len() == 8 && "md"@.len() == 2 && "py"@.len() == 2 && "rb"@.len() == 2 && "rs"@.len() == 2 && "scss"@.len() == 4 && "sh"@.len() == 2 && "sql"@.len() == 3 && "swift"@.len() == 5 && "toml"@.len() == 4 && "ts"@.len() == 2 && "tsx"@.len() == 3 && "xml"@.len() == 3 && "yaml"@.len() == 4 && "yml"@.len() == 3 && "zsh"@.len() == 3);
    assert("kt"@[0] != "rs"@[0] && "kt"@[0] != "py"@[0] && "kt"@[0] != "js"@[0] && "kt"@[0] != "ts"@[0] && "kt"@[0] != "cc"@[0] && "kt"@[0] != "go"@[0] && "kt"@[0] != "rb"@[0] && "kt"@[0] != "sh"@[0] && "kt"@[0] != "md"@[0]);
    assert("kt"@ != "rs"@ && "kt"@ != "py"@ && "kt"@ != "js"@ && "kt"@ != "jsx"@ && "kt"@ != "ts"@ && "kt"@ != "tsx"@ && "kt"@ != "c"@ && "kt"@ != "cpp"@ && "kt"@ != "cc"@ && "kt"@ != "cxx"@ && "kt"@ != "h"@ && "kt"@ != "hpp"@ && "kt"@ != "go"@ && "kt"@ != "java"@ && "kt"@ != "rb"@ && "kt"@ != "sh"@ && "kt"@ != "bash"@ && "kt"@ != "zsh"@ && "kt"@ != "json"@ && "kt"@ != "yaml"@ && "kt"@ != "yml"@ && "kt"@ != "toml"@ && "kt"@ != "xml"@ && "kt"@ != "html"@ && "kt"@ != "htm"@ && "kt"@ != "css"@ && "kt"@ != "scss"@ && "kt"@ != "md"@ && "kt"@ != "markdown"@ && "kt"@ != "sql"@ && "kt"@ != "lua"@ && "kt"@ != "swift"@);
    assert("kts"@[0] != "jsx"@[0] && "kts"@[0] != "tsx"@[0] && "kts"@[0] != "cpp"@[0] && "kts"@[0] != "cxx"@[0] && "kts"@[0] != "hpp"@[0] && "kts"@[0] != "zsh"@[0] && "kts"@[0] != "yml"@[0] && "kts"@[0] != "xml"@[0] && "kts"@[0] != "htm"@[0] && "kts"@[0] != "css"@[0] && "kts"@[0] != "sql"@[0] && "kts"@[0] != "lua"@[0]);
    assert("kts"@ != "rs"@ && "kts"@ != "py"@ && "kts"@ != "js"@ && "kts"@ != "jsx"@ && "kts"@ != "ts"@ && "kts"@ != "tsx"@ && "kts"@ != "c"@ && "kts"@ != "cpp"@ && "kts"@ != "cc"@ && "kts"@ != "cxx"@ && "kts"@ != "h"@ && "kts"@ != "hpp"@ && "kts"@ != "go"@ && "kts"@ != "java"@ && "kts"@ != "rb"@ && "kts"@ != "sh"@ && "kts"@ != "bash"@ && "kts"@ != "zsh"@ && "kts"@ != "json"@ && "kts"@ != "yaml"@ && "kts"@ != "yml"@ && "kts"@ != "toml"@ && "kts"@ != "xml"@ && "kts"@ != "html"@ && "kts"@ != "htm"@ && "kts"@ != "css"@ && "kts"@ != "scss"@ && "kts"@ != "md"@ && "kts"@ != "markdown"@ && "kts"@ != "sql"@ && "kts"@ != "lua"@ && "kts"@ != "swift"@);
}

proof fn lemma_lang_lua()
    ensures
        language_for_extension("lua"@) == "lua"@,
{
    reveal_strlit("bash"); reveal_strlit("c"); reveal_strlit("cc"); reveal_strlit("cpp"); reveal_strlit("css"); reveal_strlit("cxx"); reveal_strlit("go"); reveal_strlit("h"); reveal_strlit("hpp"); reveal_strlit("htm"); reveal_strlit("html"); reveal_strlit("java"); reveal_strlit("js"); reveal_strlit("json"); reveal_strlit("jsx"); reveal_strlit("lua"); reveal_strlit("markdown"); reveal_strlit("md"); reveal_strlit("py"); reveal_strlit("rb"); reveal_strlit("rs"); reveal_strlit("scss"); reveal_strlit("sh"); reveal_strlit("sql"); reveal_strlit("toml"); reveal_strlit("ts"); reveal_strlit("tsx"); reveal_strlit("xml"); reveal_strlit("yaml"); reveal_strlit("yml"); reveal_strlit("zsh");
    assert("bash"@.len() == 4 && "c"@.len() == 1 && "cc"@.len() == 2 && "cpp"@.len() == 3 && "css"@.len() == 3 && "cxx"@.len() == 3 && "go"@.len() == 2 && "h"@.len() == 1 && "hpp"@.len() == 3 && "htm"@.len() == 3 && "html"@.len() == 4 && "java"@.len() == 4 && "js"@.len() == 2 && "json"@.len() == 4 && "jsx"@.len() == 3 && "lua"@.len() == 3 && "markdown"@.len() == 8 && "md"@.len() == 2 && "py"@.len() == 2 && "rb"@.len() == 2 && "rs"@.len() == 2 && "scss"@.len() == 4 && "sh"@.len() == 2 && "sql"@.len() == 3 && "toml"@.len() == 4 && "ts"@.len() == 2 && "tsx"@.len() == 3 && "xml"@.len() == 3 && "yaml"@.len() == 4 && "yml"@.len() == 3 && "zsh"@.len() == 3);
    assert("lua"@[0] != "jsx"@[0] && "lua"@[0] != "tsx"@[0] && "lua"@[0] != "cpp"@[0] && "lua"@[0] != "cxx"@[0] && "lua"@[0] != "hpp"@[0] && "lua"@[0] != "zsh"@[0] && "lua"@[0] != "yml"@[0] && "lua"@[0] != "xml"@[0] && "lua"@[0] != "htm"@[0] && "lua"@[0] != "css"@[0] && "lua"@[0] != "sql"@[0]);
    assert("lua"@ != "rs"@ && "lua"@ != "py"@ && "lua"@ != "js"@ && "lua"@ != "jsx"@ && "lua"@ != "ts"@ && "lua"@ != "tsx"@ && "lua"@ != "c"@ && "lua"@ != "cpp"@ && "lua"@ != "cc"@ && "lua"@ != "cxx"@ && "lua"@ != "h"@ && "lua"@ != "hpp"@ && "lua"@ != "go"@ && "lua"@ != "java"@ && "lua"@ != "rb"@ && "lua"@ != "sh"@ && "lua"@ != "bash"@ && "lua"@ != "zsh"@ && "lua"@ != "json"@ && "lua"@ != "yaml"@ && "lua"@ != "yml"@ && "lua"@ != "toml"@ && "lua"@ != "xml"@ && "lua"@ != "html"@ && "lua"@ != "htm"@ && "lua"@ != "css"@ && "lua"@ != "scss"@ && "lua"@ != "md"@ && "lua"@ != "markdown"@ && "lua"@ != "sql"@);
}

proof fn lemma_lang_markdown()
    ensures
        language_for_extension("md"@) == "markdown"@ && language_for_extension("markdown"@) == "markdown"@,
{
    reveal_strlit("bash"); reveal_strlit("c"); reveal_strlit("cc"); reveal_strlit("cpp"); reveal_strlit("css"); reveal_strlit("cxx"); reveal_strlit("go"); reveal_strlit("h"); reveal_strlit("hpp"); reveal_strlit("htm"); reveal_strlit("html"); reveal_strlit("java"); reveal_strlit("js"); reveal_strlit("json"); reveal_strlit("jsx"); reveal_strlit("markdown"); reveal_strlit("md"); reveal_strlit("py"); reveal_strlit("rb"); reveal_strlit("rs"); reveal_strlit("scss"); reveal_strlit("sh"); reveal_strlit("toml"); reveal_strlit("ts"); reveal_strlit("tsx"); reveal_strlit("xml"); reveal_strlit("yaml"); reveal_strlit("yml"); reveal_strlit("zsh");
    assert("bash"@.len() == 4 && "c"@.len() == 1 && "cc"@.len() == 2 && "cpp"@.len() == 3 && "css"@.len() == 3 && "cxx"@.len() == 3 && "go"@.len() == 2 && "h"@.len() == 1 && "hpp"@.len() == 3 && "htm"@.len() == 3 && "html"@.len() == 4 && "java"@.len() == 4 && "js"@.len() == 2 && "json"@.len() == 4 && "jsx"@.len() == 3 && "markdown"@.len() == 8 && "md"@.len() == 2 && "py"@.len() == 2 && "rb"@.len() == 2 && "rs"@.len() == 2 && "scss"@.len() == 4 && "sh"@.len() == 2 && "toml"@.len() == 4 && "ts"@.len() == 2 && "tsx"@.len() == 3 && "xml"@.len() == 3 && "yaml"@.len() == 4 && "yml"@.len() == 3 && "zsh"@.len() == 3);
    assert("md"@[0] != "rs"@[0] && "md"@[0] != "py"@[0] && "md"@[0] != "js"@[0] && "md"@[0] != "ts"@[0] && "md"@[0] != "cc"@[0] && "md"@[0] != "go"@[0] && "md"@[0] != "rb"@[0] && "md"@[0] != "sh"@[0]);
    assert("md"@ != "rs"@ && "md"@ != "py"@ && "md"@ != "js"@ && "md"@ != "jsx"@ && "md"@ != "ts"@ && "md"@ != "tsx"@ && "md"@ != "c"@ && "md"@ != "cpp"@ && "md"@ != "cc"@ && "md"@ != "cxx"@ && "md"@ != "h"@ && "md"@ != "hpp"@ && "md"@ != "go"@ && "md"@ != "java"@ && "md"@ != "rb"@ && "md"@ != "sh"@ && "md"@ != "bash"@ && "md"@ != "zsh"@ && "md"@ != "json"@ && "md"@ != "yaml"@ && "md"@ != "yml"@ && "md"@ != "toml"@ && "md"@ != "xml"@ && "md"@ != "html"@ && "md"@ != "htm"@ && "md"@ != "css"@ && "md"@ != "scss"@);
    assert("markdown"@ != "rs"@ && "markdown"@ != "py"@ && "markdown"@ != "js"@ && "markdown"@ != "jsx"@ && "markdown"@ != "ts"@ && "markdown"@ != "tsx"@ && "markdown"@ != "c"@ && "markdown"@ != "cpp"@ && "markdown"@ != "cc"@ && "markdown"@ != "cxx"@ && "markdown"@ != "h"@ && "markdown"@ != "hpp"@ && "markdown"@ != "go"@ && "markdown"@ != "java"@ && "markdown"@ != "rb"@ && "markdown"@ != "sh"@ && "markdown"@ != "bash"@ && "markdown"@ != "zsh"@ && "markdown"@ != "json"@ && "markdown"@ != "yaml"@ && "markdown"@ != "yml"@ && "markdown"@ != "toml"@ && "markdown"@ != "xml"@ && "markdown"@ != "html"@ && "markdown"@ != "htm"@ && "markdown"@ != "css"@ && "markdown"@ != "scss"@);
}

proof fn lemma_lang_ocaml()
    ensures
        language_for_extension("ml"@) == "ocaml"@ && language_for_extension("mli"@) == "ocaml"@,
{
    reveal_strlit("bash"); reveal_strlit("c"); reveal_strlit("cc"); reveal_strlit("cpp"); reveal_strlit("css"); reveal_strlit("cxx"); reveal_strlit("dart"); reveal_strlit("erl"); reveal_strlit("ex"); reveal_strlit("exs"); reveal_strlit("go"); reveal_strlit("h"); reveal_strlit("hpp"); reveal_strlit("hrl"); reveal_strlit("hs"); reveal_strlit("htm"); reveal_strlit("html"); reveal_strlit("java"); reveal_strlit("js"); reveal_strlit("json"); reveal_strlit("jsx"); reveal_strlit("kt"); reveal_strlit("kts"); reveal_strlit("lua"); reveal_strlit("markdown"); reveal_strlit("md"); reveal_strlit("ml"); reveal_strlit("mli"); reveal_strlit("ocaml"); reveal_strlit("py"); reveal_strlit("r"); reveal_strlit("rb"); reveal_strlit("rs"); reveal_strlit("scss"); reveal_strlit("sh"); reveal_strlit("sql"); reveal_strlit("swift"); reveal_strlit("toml"); reveal_strlit("ts"); reveal_strlit("tsx"); reveal_strlit("xml"); reveal_strlit("yaml"); reveal_strlit("yml"); reveal_strlit("zig"); reveal_strlit("zsh");
    assert("bash"@.len() == 4 && "c"@.len() == 1 && "cc"@.len() == 2 && "cpp"@.len() == 3 && "css"@.len() == 3 && "cxx"@.len() == 3 && "dart"@.len() == 4 && "erl"@.len() == 3 && "ex"@.len() == 2 && "exs"@.len() == 3 && "go"@.len() == 2 && "h"@.len() == 1 && "hpp"@.len() == 3 && "hrl"@.len() == 3 && "hs"@.len() == 2 && "htm"@.len() == 3 && "html"@.len() == 4 && "java"@.len() == 4 && "js"@.len() == 2 && "json"@.len() == 4 && "jsx"@.len() == 3 && "kt"@.len() == 2 && "kts"@.len() == 3 && "lua"@.len() == 3 && "markdown"@.len() == 8 && "md"@.len() == 2 && "ml"@.len() == 2 && "mli"@.len() == 3 && "py"@.len() == 2 && "r"@.len() == 1 && "rb"@.len() == 2 && "rs"@.len() == 2 && "scss"@.len() == 4 && "sh"@.len() == 2 && "sql"@.len() == 3 && "swift"@.len() == 5 && "toml"@.len() == 4 && "ts"@.len() == 2 && "tsx"@.len() == 3 && "xml"@.len() == 3 && "yaml"@.len() == 4 && "yml"@.len() == 3 && "zig"@.len() == 3 && "zsh"@.len() == 3);
    assert("ml"@[0] != "rs"@[0] && "ml"@[0] != "py"@[0] && "ml"@[0] != "js"@[0] && "ml"@[0] != "ts"@[0] && "ml"@[0] != "cc"@[0] && "ml"@[0] != "go"@[0] && "ml"@[0] != "rb"@[0] && "ml"@[0] != "sh"@[0] && "ml"@[1] != "md"@[1] && "ml"@[0] != "kt"@[0] && "ml"@[0] != "ex"@[0] && "ml"@[0] != "hs"@[0]);
    assert("ml"@ != "rs"@ && "ml"@ != "py"@ && "ml"@ != "js"@ && "ml"@ != "jsx"@ && "ml"@ != "ts"@ && "ml"@ != "tsx"@ && "ml"@ != "c"@ && "ml"@ != "cpp"@ && "ml"@ != "cc"@ && "ml"@ != "cxx"@ && "ml"@ != "h"@ && "ml"@ != "hpp"@ && "ml"@ != "go"@ && "ml"@ != "java"@ && "ml"@ != "rb"@ && "ml"@ != "sh"@ && "ml"@ != "bash"@ && "ml"@ != "zsh"@ && "ml"@ != "json"@ && "ml"@ != "yaml"@ && "ml"@ != "yml"@ && "ml"@ != "toml"@ && "ml"@ != "xml"@ && "ml"@ != "html"@ && "ml"@ != "htm"@ && "ml"@ != "css"@ && "ml"@ != "scss"@ && "ml"@ != "md"@ && "ml"@ != "markdown"@ && "ml"@ != "sql"@ && "ml"@ != "lua"@ && "ml"@ != "swift"@ && "ml"@ != "kt"@ && "ml"@ != "kts"@ && "ml"@ != "zig"@ && "ml"@ != "r"@ && "ml"@ != "dart"@ && "ml"@ != "ex"@ && "ml"@ != "exs"@ && "ml"@ != "erl"@ && "ml"@ != "hrl"@ && "ml"@ != "hs"@);
    assert("mli"@[0] != "jsx"@[0] && "mli"@[0] != "tsx"@[0] && "mli"@[0] != "cpp"@[0] && "mli"@[0] != "cxx"@[0] && "mli"@[0] != "hpp"@[0] && "mli"@[0] != "zsh"@[0] && "mli"@[0] != "yml"@[0] && "mli"@[0] != "xml"@[0] && "mli"@[0] != "htm"@[0] && "mli"@[0] != "css"@[0] && "mli"@[0] != "sql"@[0] && "mli"@[0] != "lua"@[0] && "mli"@[0] != "kts"@[0] && "mli"@[0] != "zig"@[0] && "mli"@[0] != "exs"@[0] && "mli"@[0] != "erl"@[0] && "mli"@[0] != "hrl"@[0]);
    assert("mli"@ != "rs"@ && "mli"@ != "py"@ && "mli"@ != "js"@ && "mli"@ != "jsx"@ && "mli"@ != "ts"@ && "mli"@ != "tsx"@ && "mli"@ != "c"@ && "mli"@ != "cpp"@ && "mli"@ != "cc"@ && "mli"@ != "cxx"@ && "mli"@ != "h"@ && "mli"@ != "hpp"@ && "mli"@ != "go"@ && "mli"@ != "java"@ && "mli"@ != "rb"@ && "mli"@ != "sh"@ && "mli"@ != "bash"@ && "mli"@ != "zsh"@ && "mli"@ != "json"@ && "mli"@ != "yaml"@ && "mli"@ != "yml"@ && "mli"@ != "toml"@ && "mli"@ != "xml"@ && "mli"@ != "html"@ && "mli"@ != "htm"@ && "mli"@ != "css"@ && "mli"@ != "scss"@ && "mli"@ != "md"@ && "mli"@ != "markdown"@ && "mli"@ != "sql"@ && "mli"@ != "lua"@ && "mli"@ != "swift"@ && "mli"@ != "kt"@ && "mli"@ != "kts"@ && "mli"@ != "zig"@ && "mli"@ != "r"@ && "mli"@ != "dart"@ && "mli"@ != "ex"@ && "mli"@ != "exs"@ && "mli"@ != "erl"@ && "mli"@ != "hrl"@ && "mli"@ != "hs"@);
}

proof fn lemma_lang_plaintext()
    ensures
        language_for_extension("txt"@) == "plaintext"@,
{
    reveal_strlit("bash"); reveal_strlit("c"); reveal_strlit("cc"); reveal_strlit("cpp"); reveal_strlit("css"); reveal_strlit("cxx"); reveal_strlit("dart"); reveal_strlit("erl"); reveal_strlit("ex"); reveal_strlit("exs"); reveal_strlit("go"); reveal_strlit("h"); reveal_strlit("hpp"); reveal_strlit("hrl"); reveal_strlit("hs"); reveal_strlit("htm"); reveal_strlit("html"); reveal_strlit("java"); reveal_strlit("js"); reveal_strlit("json"); reveal_strlit("jsx"); reveal_strlit("kt"); reveal_strlit("kts"); reveal_strlit("lua"); reveal_strlit("markdown"); reveal_strlit("md"); reveal_strlit("ml"); reveal_strlit("mli"); reveal_strlit("plaintext"); reveal_strlit("py"); reveal_strlit("r"); reveal_strlit("rb"); reveal_strlit("rs"); reveal_strlit("scss"); reveal_strlit("sh"); reveal_strlit("sql"); reveal_strlit("swift"); reveal_strlit("toml"); reveal_strlit("ts"); reveal_strlit("tsx"); reveal_strlit("txt"); reveal_strlit("xml"); reveal_strlit("yaml"); reveal_strlit("yml"); reveal_strlit("zig"); reveal_strlit("zsh");
    assert("bash"@.len() == 4 && "c"@.len() == 1 && "cc"@.len() == 2 && "cpp"@.len() == 3 && "css"@.len() == 3 && "cxx"@.len() == 3 && "dart"@.len() == 4 && "erl"@.len() == 3 && "ex"@.len() == 2 && "exs"@.len() == 3 && "go"@.len() == 2 && "h"@.len() == 1 && "hpp"@.len() == 3 && "hrl"@.len() == 3 && "hs"@.len() == 2 && "htm"@.len() == 3 && "html"@.len() == 4 && "java"@.len() == 4 && "js"@.len() == 2 && "json"@.len() == 4 && "jsx"@.len() == 3 && "kt"@.len() == 2 && "kts"@.len() == 3 && "lua"@.len() == 3 && "markdown"@.len() == 8 && "md"@.len() == 2 && "ml"@.len() == 2 && "mli"@.len() == 3 && "py"@.len() == 2 && "r"@.len() == 1 && "rb"@.len() == 2 && "rs"@.len() == 2 && "scss"@.len() == 4 && "sh"@.len() == 2 && "sql"@.len() == 3 && "swift"@.len() == 5 && "toml"@.len() == 4 && "ts"@.len() == 2 && "tsx"@.len() == 3 && "txt"@.len() == 3 && "xml"@.len() == 3 && "yaml"@.len() == 4 && "yml"@.len() == 3 && "zig"@.len() == 3 && "zsh"@.len() == 3);
    assert("txt"@[0] != "jsx"@[0] && "txt"@[1] != "tsx"@[1] && "txt"@[0] != "cpp"@[0] && "txt"@[0] != "cxx"@[0] && "txt"@[0] != "hpp"@[0] && "txt"@[0] != "zsh"@[0] && "txt"@[0] != "yml"@[0] && "txt"@[0] != "xml"@[0] && "txt"@[0] != "htm"@[0] && "txt"@[0] != "css"@[0] && "txt"@[0] != "sql"@[0] && "txt"@[0] != "lua"@[0] && "txt"@[0] != "kts"@[0] && "txt"@[0] != "zig"@[0] && "txt"@[0] != "exs"@[0] && "txt"@[0] != "erl"@[0] && "txt"@[0] != "hrl"@[0] && "txt"@[0] != "mli"@[0]);
    assert("txt"@ != "rs"@ && "txt"@ != "py"@ && "txt"@ != "js"@ && "txt"@ != "jsx"@ && "txt"@ != "ts"@ && "txt"@ != "tsx"@ && "txt"@ != "c"@ && "txt"@ != "cpp"@ && "txt"@ != "cc"@ && "txt"@ != "cxx"@ && "txt"@ != "h"@ && "txt"@ != "hpp"@ && "txt"@ != "go"@ && "txt"@ != "java"@ && "txt"@ != "rb"@ && "txt"@ != "sh"@ && "txt"@ != "bash"@ && "txt"@ != "zsh"@ && "txt"@ != "json"@ && "txt"@ != "yaml"@ && "txt"@ != "yml"@ && "txt"@ != "toml"@ && "txt"@ != "xml"@ && "txt"@ != "html"@ && "txt"@ != "htm"@ && "txt"@ != "css"@ && "txt"@ != "scss"@ && "txt"@ != "md"@ && "txt"@ != "markdown"@ && "txt"@ != "sql"@ && "txt"@ != "lua"@ && "txt"@ != "swift"@ && "txt"@ != "kt"@ && "txt"@ != "kts"@ && "txt"@ != "zig"@ && "txt"@ != "r"@ && "txt"@ != "dart"@ && "txt"@ != "ex"@ && "txt"@ != "exs"@ && "txt"@ != "erl"@ && "txt"@ != "hrl"@ && "txt"@ != "hs"@ && "txt"@ != "ml"@ && "txt"@ != "mli"@);
}

proof fn lemma_lang_python()
    ensures
        language_for_extension("py"@) == "python"@,
{
    reveal_strlit("py"); reveal_strlit("python"); reveal_strlit("rs");
    assert("py"@.len() == 2 && "rs"@.len() == 2);
    assert("py"@[0] != "rs"@[0]);
    assert("py"@ != "rs"@);
}

proof fn lemma_lang_r()
    ensures
        language_for_extension("r"@) == "r"@,
{
    reveal_strlit("bash"); reveal_strlit("c"); reveal_strlit("cc"); reveal_strlit("cpp"); reveal_strlit("css"); reveal_strlit("cxx"); reveal_strlit("go"); reveal_strlit("h"); reveal_strlit("hpp"); reveal_strlit("htm"); reveal_strlit("html"); reveal_strlit("java"); reveal_strlit("js"); reveal_strlit("json"); reveal_strlit("jsx"); reveal_strlit("kt"); reveal_strlit("kts"); reveal_strlit("lua"); reveal_strlit("markdown"); reveal_strlit("md"); reveal_strlit("py"); reveal_strlit("r"); reveal_strlit("rb"); reveal_strlit("rs"); reveal_strlit("scss"); reveal_strlit("sh"); reveal_strlit("sql"); reveal_strlit("swift"); reveal_strlit("toml"); reveal_strlit("ts"); reveal_strlit("tsx"); reveal_strlit("xml"); reveal_strlit("yaml"); reveal_strlit("yml"); reveal_strlit("zig"); reveal_strlit("zsh");
    assert("bash"@.len() == 4 && "c"@.len() == 1 && "cc"@.len() == 2 && "cpp"@.len() == 3 && "css"@.len() == 3 && "cxx"@.len() == 3 && "go"@.len() == 2 && "h"@.len() == 1 && "hpp"@.len() == 3 && "htm"@.len() == 3 && "html"@.len() == 4 && "java"@.len() == 4 && "js"@.len() == 2 && "json"@.len() == 4 && "jsx"@.len() == 3 && "kt"@.len() == 2 && "kts"@.len() == 3 && "lua"@.len() == 3 && "markdown"@.len() == 8 && "md"@.len() == 2 && "py"@.len() == 2 && "r"@.len() == 1 && "rb"@.len() == 2 && "rs"@.len() == 2 && "scss"@.len() == 4 && "sh"@.len() == 2 && "sql"@.len() == 3 && "swift"@.len() == 5 && "toml"@.len() == 4 && "ts"@.len() == 2 && "tsx"@.len() == 3 && "xml"@.len() == 3 && "yaml"@.len() == 4 && "yml"@.len() == 3 && "zig"@.len() == 3 && "zsh"@.len() == 3);
    assert("r"@[0] != "c"@[0] && "r"@[0] != "h"@[0]);
    assert("r"@ != "rs"@ && "r"@ != "py"@ && "r"@ != "js"@ && "r"@ != "jsx"@ && "r"@ != "ts"@ && "r"@ != "tsx"@ && "r"@ != "c"@ && "r"@ != "cpp"@ && "r"@ != "cc"@ && "r"@ != "cxx"@ && "r"@ != "h"@ && "r"@ != "hpp"@ && "r"@ != "go"@ && "r"@ != "java"@ && "r"@ != "rb"@ && "r"@ != "sh"@ && "r"@ != "bash"@ && "r"@ != "zsh"@ && "r"@ != "json"@ && "r"@ != "yaml"@ && "r"@ != "yml"@ && "r"@ != "toml"@ && "r"@ != "xml"@ && "r"@ != "html"@ && "r"@ != "htm"@ && "r"@ != "css"@ && "r"@ != "scss"@ && "r"@ != "md"@ && "r"@ != "markdown"@ && "r"@ != "sql"@ && "r"@ != "lua"@ && "r"@ != "swift"@ && "r"@ != "kt"@ && "r"@ != "kts"@ && "r"@ != "zig"@);
}

proof fn lemma_lang_ruby()
    ensures
        language_for_extension("rb"@) == "ruby"@,
{
    reveal_strlit("c"); reveal_strlit("cc"); reveal_strlit("cpp"); reveal_strlit("cxx"); reveal_strlit("go"); reveal_strlit("h"); reveal_strlit("hpp"); reveal_strlit("java"); reveal_strlit("js"); reveal_strlit("jsx"); reveal_strlit("py"); reveal_strlit("rb"); reveal_strlit("rs"); reveal_strlit("ruby"); reveal_strlit("ts"); reveal_strlit("tsx");
    assert("c"@.len() == 1 && "cc"@.len() == 2 && "cpp"@.len() == 3 && "cxx"@.len() == 3 && "go"@.len() == 2 && "h"@.len() == 1 && "hpp"@.len() == 3 && "java"@.len() == 4 && "js"@.len() == 2 && "jsx"@.len() == 3 && "py"@.len() == 2 && "rb"@.len() == 2 && "rs"@.len() == 2 && "ts"@.len() == 2 && "tsx"@.len() == 3);
    assert("rb"@[1] != "rs"@[1] && "rb"@[0] != "py"@[0] && "rb"@[0] != "js"@[0] && "rb"@[0] != "ts"@[0] && "rb"@[0] != "cc"@[0] && "rb"@[0] != "go"@[0]);
    assert("rb"@ != "rs"@ && "rb"@ != "py"@ && "rb"@ != "js"@ && "rb"@ != "jsx"@ && "rb"@ != "ts"@ && "rb"@ != "tsx"@ && "rb"@ != "c"@ && "rb"@ != "cpp"@ && "rb"@ != "cc"@ && "rb"@ != "cxx"@ && "rb"@ != "h"@ && "rb"@ != "hpp"@ && "rb"@ != "go"@ && "rb"@ != "java"@);
}

proof fn lemma_lang_rust()
    ensures
        language_for_extension("rs"@) == "rust"@,
{
    reveal_strlit("rs"); reveal_strlit("rust");
    assert("rs"@.len() == 2);
}

proof fn lemma_lang_scss()
    ensures
        language_for_extension("scss"@) == "scss"@,
{
    reveal_strlit("bash"); reveal_strlit("c"); reveal_strlit("cc"); reveal_strlit("cpp"); reveal_strlit("css"); reveal_strlit("cxx"); reveal_strlit("go"); reveal_strlit("h"); reveal_strlit("hpp"); reveal_strlit("htm"); reveal_strlit("html"); reveal_strlit("java"); reveal_strlit("js"); reveal_strlit("json"); reveal_strlit("jsx"); reveal_strlit("py"); reveal_strlit("rb"); reveal_strlit("rs"); reveal_strlit("scss"); reveal_strlit("sh"); reveal_strlit("toml"); reveal_strlit("ts"); reveal_strlit("tsx"); reveal_strlit("xml"); reveal_strlit("yaml"); reveal_strlit("yml"); reveal_strlit("zsh");
    assert("bash"@.len() == 4 && "c"@.len() == 1 && "cc"@.len() == 2 && "cpp"@.len() == 3 && "css"@.len() == 3 && "cxx"@.len() == 3 && "go"@.len() == 2 && "h"@.len() == 1 && "hpp"@.len() == 3 && "htm"@.len() == 3 && "html"@.len() == 4 && "java"@.len() == 4 && "js"@.len() == 2 && "json"@.len() == 4 && "jsx"@.len() == 3 && "py"@.len() == 2 && "rb"@.len() == 2 && "rs"@.len() == 2 && "scss"@.len() == 4 && "sh"@.len() == 2 && "toml"@.len() == 4 && "ts"@.len() == 2 && "tsx"@.len() == 3 && "xml"@.len() == 3 && "yaml"@.len() == 4 && "yml"@.len() == 3 && "zsh"@.len() == 3);
    assert("scss"@[0] != "java"@[0] && "scss"@[0] != "bash"@[0] && "scss"@[0] != "json"@[0] && "scss"@[0] != "yaml"@[0] && "scss"@[0] != "toml"@[0] && "scss"@[0] != "html"@[0]);
    assert("scss"@ != "rs"@ && "scss"@ != "py"@ && "scss"@ != "js"@ && "scss"@ != "jsx"@ && "scss"@ != "ts"@ && "scss"@ != "tsx"@ && "scss"@ != "c"@ && "scss"@ != "cpp"@ && "scss"@ != "cc"@ && "scss"@ != "cxx"@ && "scss"@ != "h"@ && "scss"@ != "hpp"@ && "scss"@ != "go"@ && "scss"@ != "java"@ && "scss"@ != "rb"@ && "scss"@ != "sh"@ && "scss"@ != "bash"@ && "scss"@ != "zsh"@ && "scss"@ != "json"@ && "scss"@ != "yaml"@ && "scss"@ != "yml"@ && "scss"@ != "toml"@ && "scss"@ != "xml"@ && "scss"@ != "html"@ && "scss"@ != "htm"@ && "scss"@ != "css"@);
}

proof fn lemma_lang_shellscript()
    ensures
        language_for_extension("sh"@) == "shellscript"@ && language_for_extension("bash"@) == "shellscript"@ && language_for_extension("zsh"@) == "shellscript"@,
{
    reveal_strlit("bash"); reveal_strlit("c"); reveal_strlit("cc"); reveal_strlit("cpp"); reveal_strlit("cxx"); reveal_strlit("go"); reveal_strlit("h"); reveal_strlit("hpp"); reveal_strlit("java"); reveal_strlit("js"); reveal_strlit("jsx"); reveal_strlit("py"); reveal_strlit("rb"); reveal_strlit("rs"); reveal_strlit("sh"); reveal_strlit("shellscript"); reveal_strlit("ts"); reveal_strlit("tsx"); reveal_strlit("zsh");
    assert("bash"@.len() == 4 && "c"@.len() == 1 && "cc"@.len() == 2 && "cpp"@.len() == 3 && "cxx"@.len() == 3 && "go"@.len() == 2 && "h"@.len() == 1 && "hpp"@.len() == 3 && "java"@.len() == 4 && "js"@.len() == 2 && "jsx"@.len() == 3 && "py"@.len() == 2 && "rb"@.len() == 2 && "rs"@.len() == 2 && "sh"@.len() == 2 && "ts"@.len() == 2 && "tsx"@.len() == 3 && "zsh"@.len() == 3);
    assert("sh"@[0] != "rs"@[0] && "sh"@[0] != "py"@[0] && "sh"@[0] != "js"@[0] && "sh"@[0] != "ts"@[0] && "sh"@[0] != "cc"@[0] && "sh"@[0] != "go"@[0] && "sh"@[0] != "rb"@[0]);
    assert("sh"@ != "rs"@ && "sh"@ != "py"@ && "sh"@ != "js"@ && "sh"@ != "jsx"@ && "sh"@ != "ts"@ && "sh"@ != "tsx"@ && "sh"@ != "c"@ && "sh"@ != "cpp"@ && "sh"@ != "cc"@ && "sh"@ != "cxx"@ && "sh"@ != "h"@ && "sh"@ != "hpp"@ && "sh"@ != "go"@ && "sh"@ != "java"@ && "sh"@ != "rb"@);
    assert("bash"@[0] != "java"@[0]);
    assert("bash"@ != "rs"@ && "bash"@ != "py"@ && "bash"@ != "js"@ && "bash"@ != "jsx"@ && "bash"@ != "ts"@ && "bash"@ != "tsx"@ && "bash"@ != "c"@ && "bash"@ != "cpp"@ && "bash"@ != "cc"@ && "bash"@ != "cxx"@ && "bash"@ != "h"@ && "bash"@ != "hpp"@ && "bash"@ != "go"@ && "bash"@ != "java"@ && "bash"@ != "rb"@);
    assert("zsh"@[0] != "jsx"@[0] && "zsh"@[0] != "tsx"@[0] && "zsh"@[0] != "cpp"@[0] && "zsh"@[0] != "cxx"@[0] && "zsh"@[0] != "hpp"@[0]);
    assert("zsh"@ != "rs"@ && "zsh"@ != "py"@ && "zsh"@ != "js"@ && "zsh"@ != "jsx"@ && "zsh"@ != "ts"@ && "zsh"@ != "tsx"@ && "zsh"@ != "c"@ && "zsh"@ != "cpp"@ && "zsh"@ != "cc"@ && "zsh"@ != "cxx"@ && "zsh"@ != "h"@ && "zsh"@ != "hpp"@ && "zsh"@ != "go"@ && "zsh"@ != "java"@ && "zsh"@ != "rb"@);
}

proof fn lemma_lang_sql()
    ensures
        language_for_extension("sql"@) == "sql"@,
{
    reveal_strlit("bash"); reveal_strlit("c"); reveal_strlit("cc"); reveal_strlit("cpp"); reveal_strlit("css"); reveal_strlit("cxx"); reveal_strlit("go"); reveal_strlit("h"); reveal_strlit("hpp"); reveal_strlit("htm"); reveal_strlit("html"); reveal_strlit("java"); reveal_strlit("js"); reveal_strlit("json"); reveal_strlit("jsx"); reveal_strlit("markdown"); reveal_strlit("md"); reveal_strlit("py"); reveal_strlit("rb"); reveal_strlit("rs"); reveal_strlit("scss"); reveal_strlit("sh"); reveal_strlit("sql"); reveal_strlit("toml"); reveal_strlit("ts"); reveal_strlit("tsx"); reveal_strlit("xml"); reveal_strlit("yaml"); reveal_strlit("yml"); reveal_strlit("zsh");
    assert("bash"@.len() == 4 && "c"@.len() == 1 && "cc"@.len() == 2 && "cpp"@.len() == 3 && "css"@.len() == 3 && "cxx"@.len() == 3 && "go"@.len() == 2 && "h"@.len() == 1 && "hpp"@.len() == 3 && "htm"@.len() == 3 && "html"@.len() == 4 && "java"@.len() == 4 && "js"@.len() == 2 && "json"@.len() == 4 && "jsx"@.len() == 3 && "markdown"@.len() == 8 && "md"@.len() == 2 && "py"@.len() == 2 && "rb"@.len() == 2 && "rs"@.len() == 2 && "scss"@.len() == 4 && "sh"@.len() == 2 && "sql"@.len() == 3 && "toml"@.len() == 4 && "ts"@.len() == 2 && "tsx"@.len() == 3 && "xml"@.len() == 3 && "yaml"@.len() == 4 && "yml"@.len() == 3 && "zsh"@.len() == 3);
    assert("sql"@[0] != "jsx"@[0] && "sql"@[0] != "tsx"@[0] && "sql"@[0] != "cpp"@[0] && "sql"@[0] != "cxx"@[0] && "sql"@[0] != "hpp"@[0] && "sql"@[0] != "zsh"@[0] && "sql"@[0] != "yml"@[0] && "sql"@[0] != "xml"@[0] && "sql"@[0] != "htm"@[0] && "sql"@[0] != "css"@[0]);
    assert("sql"@ != "rs"@ && "sql"@ != "py"@ && "sql"@ != "js"@ && "sql"@ != "jsx"@ && "sql"@ != "ts"@ && "sql"@ != "tsx"@ && "sql"@ != "c"@ && "sql"@ != "cpp"@ && "sql"@ != "cc"@ && "sql"@ != "cxx"@ && "sql"@ != "h"@ && "sql"@ != "hpp"@ && "sql"@ != "go"@ && "sql"@ != "java"@ && "sql"@ != "rb"@ && "sql"@ != "sh"@ && "sql"@ != "bash"@ && "sql"@ != "zsh"@ && "sql"@ != "json"@ && "sql"@ != "yaml"@ && "sql"@ != "yml"@ && "sql"@ != "toml"@ && "sql"@ != "xml"@ && "sql"@ != "html"@ && "sql"@ != "htm"@ && "sql"@ != "css"@ && "sql"@ != "scss"@ && "sql"@ != "md"@ && "sql"@ != "markdown"@);
}

proof fn lemma_lang_swift()
    ensures
        language_for_extension("swift"@) == "swift"@,
{
    reveal_strlit("bash"); reveal_strlit("c"); reveal_strlit("cc"); reveal_strlit("cpp"); reveal_strlit("css"); reveal_strlit("cxx"); reveal_strlit("go"); reveal_strlit("h"); reveal_strlit("hpp"); reveal_strlit("htm"); reveal_strlit("html"); reveal_strlit("java"); reveal_strlit("js"); reveal_strlit("json"); reveal_strlit("jsx"); reveal_strlit("lua"); reveal_strlit("markdown"); reveal_strlit("md"); reveal_strlit("py"); reveal_strlit("rb"); reveal_strlit("rs"); reveal_strlit("scss"); reveal_strlit("sh"); reveal_strlit("sql"); reveal_strlit("swift"); reveal_strlit("toml"); reveal_strlit("ts"); reveal_strlit("tsx"); reveal_strlit("xml"); reveal_strlit("yaml"); reveal_strlit("yml"); reveal_strlit("zsh");
    assert("bash"@.len() == 4 && "c"@.len() == 1 && "cc"@.len() == 2 && "cpp"@.len() == 3 && "css"@.len() == 3 && "cxx"@.len() == 3 && "go"@.len() == 2 && "h"@.len() == 1 && "hpp"@.len() == 3 && "htm"@.len() == 3 && "html"@.len() == 4 && "java"@.len() == 4 && "js"@.len() == 2 && "json"@.len() == 4 && "jsx"@.len() == 3 && "lua"@.len() == 3 && "markdown"@.len() == 8 && "md"@.len() == 2 && "py"@.len() == 2 && "rb"@.len() == 2 && "rs"@.len() == 2 && "scss"@.len() == 4 && "sh"@.len() == 2 && "sql"@.len() == 3 && "swift"@.len() == 5 && "toml"@.len() == 4 && "ts"@.len() == 2 && "tsx"@.len() == 3 && "xml"@.len() == 3 && "yaml"@.len() == 4 && "yml"@.len() == 3 && "zsh"@.len() == 3);
    assert("swift"@ != "rs"@ && "swift"@ != "py"@ && "swift"@ != "js"@ && "swift"@ != "jsx"@ && "swift"@ != "ts"@ && "swift"@ != "tsx"@ && "swift"@ != "c"@ && "swift"@ != "cpp"@ && "swift"@ != "cc"@ && "swift"@ != "cxx"@ && "swift"@ != "h"@ && "swift"@ != "hpp"@ && "swift"@ != "go"@ && "swift"@ != "java"@ && "swift"@ != "rb"@ && "swift"@ != "sh"@ && "swift"@ != "bash"@ && "swift"@ != "zsh"@ && "swift"@ != "json"@ && "swift"@ != "yaml"@ && "swift"@ != "yml"@ && "swift"@ != "toml"@ && "swift"@ != "xml"@ && "swift"@ != "html"@ && "swift"@ != "htm"@ && "swift"@ != "css"@ && "swift"@ != "scss"@ && "swift"@ != "md"@ && "swift"@ != "markdown"@ && "swift"@ != "sql"@ && "swift"@ != "lua"@);
}

proof fn lemma_lang_toml()
    ensures
        language_for_extension("toml"@) == "toml"@,
{
    reveal_strlit("bash"); reveal_strlit("c"); reveal_strlit("cc"); reveal_strlit("cpp"); reveal_strlit("cxx"); reveal_strlit("go"); reveal_strlit("h"); reveal_strlit("hpp"); reveal_strlit("java"); reveal_strlit("js"); reveal_strlit("json"); reveal_strlit("jsx"); reveal_strlit("py"); reveal_strlit("rb"); reveal_strlit("rs"); reveal_strlit("sh"); reveal_strlit("toml"); reveal_strlit("ts"); reveal_strlit("tsx"); reveal_strlit("yaml"); reveal_strlit("yml"); reveal_strlit("zsh");
    assert("bash"@.len() == 4 && "c"@.len() == 1 && "cc"@.len() == 2 && "cpp"@.len() == 3 && "cxx"@.len() == 3 && "go"@.len() == 2 && "h"@.len() == 1 && "hpp"@.len() == 3 && "java"@.len() == 4 && "js"@.len() == 2 && "json"@.len() == 4 && "jsx"@.len() == 3 && "py"@.len() == 2 && "rb"@.len() == 2 && "rs"@.len() == 2 && "sh"@.len() == 2 && "toml"@.len() == 4 && "ts"@.len() == 2 && "tsx"@.len() == 3 && "yaml"@.len() == 4 && "yml"@.len() == 3 && "zsh"@.len() == 3);
    assert("toml"@[0] != "java"@[0] && "toml"@[0] != "bash"@[0] && "toml"@[0] != "json"@[0] && "toml"@[0] != "yaml"@[0]);
    assert("toml"@ != "rs"@ && "toml"@ != "py"@ && "toml"@ != "js"@ && "toml"@ != "jsx"@ && "toml"@ != "ts"@ && "toml"@ != "tsx"@ && "toml"@ != "c"@ && "toml"@ != "cpp"@ && "toml"@ != "cc"@ && "toml"@ != "cxx"@ && "toml"@ != "h"@ && "toml"@ != "hpp"@ && "toml"@ != "go"@ && "toml"@ != "java"@ && "toml"@ != "rb"@ && "toml"@ != "sh"@ && "toml"@ != "bash"@ && "toml"@ != "zsh"@ && "toml"@ != "json"@ && "toml"@ != "yaml"@ && "toml"@ != "yml"@);
}

proof fn lemma_lang_typescript()
    ensures
        language_for_extension("ts"@) == "typescript"@,
{
    reveal_strlit("js"); reveal_strlit("jsx"); reveal_strlit("py"); reveal_strlit("rs"); reveal_strlit("ts"); reveal_strlit("typescript");
    assert("js"@.len() == 2 && "jsx"@.len() == 3 && "py"@.len() == 2 && "rs"@.len() == 2 && "ts"@.len() == 2);
    assert("ts"@[0] != "rs"@[0] && "ts"@[0] != "py"@[0] && "ts"@[0] != "js"@[0]);
    assert("ts"@ != "rs"@ && "ts"@ != "py"@ && "ts"@ != "js"@ && "ts"@ != "jsx"@);
}

proof fn lemma_lang_typescriptreact()
    ensures
        language_for_extension("tsx"@) == "typescriptreact"@,
{
    reveal_strlit("js"); reveal_strlit("jsx"); reveal_strlit("py"); reveal_strlit("rs"); reveal_strlit("ts"); reveal_strlit("tsx"); reveal_strlit("typescriptreact");
    assert("js"@.len() == 2 && "jsx"@.len() == 3 && "py"@.len() == 2 && "rs"@.len() == 2 && "ts"@.len() == 2 && "tsx"@.len() == 3);
    assert("tsx"@[0] != "jsx"@[0]);
    assert("tsx"@ != "rs"@ && "tsx"@ != "py"@ && "tsx"@ != "js"@ && "tsx"@ != "jsx"@ && "tsx"@ != "ts"@);
}

proof fn lemma_lang_xml()
    ensures
        language_for_extension("xml"@) == "xml"@,
{
    reveal_strlit("bash"); reveal_strlit("c"); reveal_strlit("cc"); reveal_strlit("cpp"); reveal_strlit("cxx"); reveal_strlit("go"); reveal_strlit("h"); reveal_strlit("hpp"); reveal_strlit("java"); reveal_strlit("js"); reveal_strlit("json"); reveal_strlit("jsx"); reveal_strlit("py"); reveal_strlit("rb"); reveal_strlit("rs"); reveal_strlit("sh"); reveal_strlit("toml"); reveal_strlit("ts"); reveal_strlit("tsx"); reveal_strlit("xml"); reveal_strlit("yaml"); reveal_strlit("yml"); reveal_strlit("zsh");
    assert("bash"@.len() == 4 && "c"@.len() == 1 && "cc"@.len() == 2 && "cpp"@.len() == 3 && "cxx"@.len() == 3 && "go"@.len() == 2 && "h"@.len() == 1 && "hpp"@.len() == 3 && "java"@.len() == 4 && "js"@.len() == 2 && "json"@.len() == 4 && "jsx"@.len() == 3 && "py"@.len() == 2 && "rb"@.len() == 2 && "rs"@.len() == 2 && "sh"@.len() == 2 && "toml"@.len() == 4 && "ts"@.len() == 2 && "tsx"@.len() == 3 && "xml"@.len() == 3 && "yaml"@.len() == 4 && "yml"@.len() == 3 && "zsh"@.len() == 3);
    assert("xml"@[0] != "jsx"@[0] && "xml"@[0] != "tsx"@[0] && "xml"@[0] != "cpp"@[0] && "xml"@[0] != "cxx"@[0] && "xml"@[0] != "hpp"@[0] && "xml"@[0] != "zsh"@[0] && "xml"@[0] != "yml"@[0]);
    assert("xml"@ != "rs"@ && "xml"@ != "py"@ && "xml"@ != "js"@ && "xml"@ != "jsx"@ && "xml"@ != "ts"@ && "xml"@ != "tsx"@ && "xml"@ != "c"@ && "xml"@ != "cpp"@ && "xml"@ != "cc"@ && "xml"@ != "cxx"@ && "xml"@ != "h"@ && "xml"@ != "hpp"@ && "xml"@ != "go"@ && "xml"@ != "java"@ && "xml"@ != "rb"@ && "xml"@ != "sh"@ && "xml"@ != "bash"@ && "xml"@ != "zsh"@ && "xml"@ != "json"@ && "xml"@ != "yaml"@ && "xml"@ != "yml"@ && "xml"@ != "toml"@);
}

proof fn lemma_lang_yaml()
    ensures
        language_for_extension("yaml"@) == "yaml"@ && language_for_extension("yml"@) == "yaml"@,
{
    reveal_strlit("bash"); reveal_strlit("c"); reveal_strlit("cc"); reveal_strlit("cpp"); reveal_strlit("cxx"); reveal_strlit("go"); reveal_strlit("h"); reveal_strlit("hpp"); reveal_strlit("java"); reveal_strlit("js"); reveal_strlit("json"); reveal_strlit("jsx"); reveal_strlit("py"); reveal_strlit("rb"); reveal_strlit("rs"); reveal_strlit("sh"); reveal_strlit("ts"); reveal_strlit("tsx"); reveal_strlit("yaml"); reveal_strlit("yml"); reveal_strlit("zsh");
    assert("bash"@.len() == 4 && "c"@.len() == 1 && "cc"@.len() == 2 && "cpp"@.len() == 3 && "cxx"@.len() == 3 && "go"@.len() == 2 && "h"@.len() == 1 && "hpp"@.len() == 3 && "java"@.len() == 4 && "js"@.len() == 2 && "json"@.len() == 4 && "jsx"@.len() == 3 && "py"@.len() == 2 && "rb"@.len() == 2 && "rs"@.len() == 2 && "sh"@.len() == 2 && "ts"@.len() == 2 && "tsx"@.len() == 3 && "yaml"@.len() == 4 && "yml"@.len() == 3 && "zsh"@.len() == 3);
    assert("yaml"@[0] != "java"@[0] && "yaml"@[0] != "bash"@[0] && "yaml"@[0] != "json"@[0]);
    assert("yaml"@ != "rs"@ && "yaml"@ != "py"@ && "yaml"@ != "js"@ && "yaml"@ != "jsx"@ && "yaml"@ != "ts"@ && "yaml"@ != "tsx"@ && "yaml"@ != "c"@ && "yaml"@ != "cpp"@ && "yaml"@ != "cc"@ && "yaml"@ != "cxx"@ && "yaml"@ != "h"@ && "yaml"@ != "hpp"@ && "yaml"@ != "go"@ && "yaml"@ != "java"@ && "yaml"@ != "rb"@ && "yaml"@ != "sh"@ && "yaml"@ != "bash"@ && "yaml"@ != "zsh"@ && "yaml"@ != "json"@);
    assert("yml"@[0] != "jsx"@[0] && "yml"@[0] != "tsx"@[0] && "yml"@[0] != "cpp"@[0] && "yml"@[0] != "cxx"@[0] && "yml"@[0] != "hpp"@[0] && "yml"@[0] != "zsh"@[0]);
    assert("yml"@ != "rs"@ && "yml"@ != "py"@ && "yml"@ != "js"@ && "yml"@ != "jsx"@ && "yml"@ != "ts"@ && "yml"@ != "tsx"@ && "yml"@ != "c"@ && "yml"@ != "cpp"@ && "yml"@ != "cc"@ && "yml"@ != "cxx"@ && "yml"@ != "h"@ && "yml"@ != "hpp"@ && "yml"@ != "go"@ && "yml"@ != "java"@ && "yml"@ != "rb"@ && "yml"@ != "sh"@ && "yml"@ != "bash"@ && "yml"@ != "zsh"@ && "yml"@ != "json"@);
}

proof fn lemma_lang_zig()
    ensures
        language_for_extension("zig"@) == "zig"@,
{
    reveal_strlit("bash"); reveal_strlit("c"); reveal_strlit("cc"); reveal_strlit("cpp"); reveal_strlit("css"); reveal_strlit("cxx"); reveal_strlit("go"); reveal_strlit("h"); reveal_strlit("hpp"); reveal_strlit("htm"); reveal_strlit("html"); reveal_strlit("java"); reveal_strlit("js"); reveal_strlit("json"); reveal_strlit("jsx"); reveal_strlit("kt"); reveal_strlit("kts"); reveal_strlit("lua"); reveal_strlit("markdown"); reveal_strlit("md"); reveal_strlit("py"); reveal_strlit("rb"); reveal_strlit("rs"); reveal_strlit("scss"); reveal_strlit("sh"); reveal_strlit("sql"); reveal_strlit("swift"); reveal_strlit("toml"); reveal_strlit("ts"); reveal_strlit("tsx"); reveal_strlit("xml"); reveal_strlit("yaml"); reveal_strlit("yml"); reveal_strlit("zig"); reveal_strlit("zsh");
    assert("bash"@.len() == 4 && "c"@.len() == 1 && "cc"@.len() == 2 && "cpp"@.len() == 3 && "css"@.len() == 3 && "cxx"@.len() == 3 && "go"@.len() == 2 && "h"@.len() == 1 && "hpp"@.len() == 3 && "htm"@.len() == 3 && "html"@.len() == 4 && "java"@.len() == 4 && "js"@.len() == 2 && "json"@.len() == 4 && "jsx"@.len() == 3 && "kt"@.len() == 2 && "kts"@.len() == 3 && "lua"@.len() == 3 && "markdown"@.len() == 8 && "md"@.len() == 2 && "py"@.len() == 2 && "rb"@.len() == 2 && "rs"@.len() == 2 && "scss"@.len() == 4 && "sh"@.len() == 2 && "sql"@.len() == 3 && "swift"@.len() == 5 && "toml"@.len() == 4 && "ts"@.len() == 2 && "tsx"@.len() == 3 && "xml"@.len() == 3 && "yaml"@.len() == 4 && "yml"@.len() == 3 && "zig"@.len() == 3 && "zsh"@.len() == 3);
    assert("zig"@[0] != "jsx"@[0] && "zig"@[0] != "tsx"@[0] && "zig"@[0] != "cpp"@[0] && "zig"@[0] != "cxx"@[0] && "zig"@[0] != "hpp"@[0] && "zig"@[1] != "zsh"@[1] && "zig"@[0] != "yml"@[0] && "zig"@[0] != "xml"@[0] && "zig"@[0] != "htm"@[0] && "zig"@[0] != "css"@[0] && "zig"@[0] != "sql"@[0] && "zig"@[0] != "lua"@[0] && "zig"@[0] != "kts"@[0]);
    assert("zig"@ != "rs"@ && "zig"@ != "py"@ && "zig"@ != "js"@ && "zig"@ != "jsx"@ && "zig"@ != "ts"@ && "zig"@ != "tsx"@ && "zig"@ != "c"@ && "zig"@ != "cpp"@ && "zig"@ != "cc"@ && "zig"@ != "cxx"@ && "zig"@ != "h"@ && "zig"@ != "hpp"@ && "zig"@ != "go"@ && "zig"@ != "java"@ && "zig"@ != "rb"@ && "zig"@ != "sh"@ && "zig"@ != "bash"@ && "zig"@ != "zsh"@ && "zig"@ != "json"@ && "zig"@ != "yaml"@ && "zig"@ != "yml"@ && "zig"@ != "toml"@ && "zig"@ != "xml"@ && "zig"@ != "html"@ && "zig"@ != "htm"@ && "zig"@ != "css"@ && "zig"@ != "scss"@ && "zig"@ != "md"@ && "zig"@ != "markdown"@ && "zig"@ != "sql"@ && "zig"@ != "lua"@ && "zig"@ != "swift"@ && "zig"@ != "kt"@ && "zig"@ != "kts"@);
}

/// The language table: each listed extension gives its language server's
/// identifier (the extensions of one language on one line, by language),
/// and an extension it does not list, such as `txt`, gives plain text.
pub proof fn lemma_language_table()
    ensures
        language_for_extension("c"@) == "c"@,
        language_for_extension("cpp"@) == "cpp"@ && language_for_extension("cc"@) == "cpp"@ && language_for_extension("cxx"@) == "cpp"@ && language_for_extension("h"@) == "cpp"@ && language_for_extension("hpp"@) == "cpp"@,
        language_for_extension("css"@) == "css"@,
        language_for_extension("dart"@) == "dart"@,
        language_for_extension("ex"@) == "elixir"@ && language_for_extension("exs"@) == "elixir"@,
        language_for_extension("erl"@) == "erlang"@ && language_for_extension("hrl"@) == "erlang"@,
        language_for_extension("go"@) == "go"@,
        language_for_extension("hs"@) == "haskell"@,
        language_for_extension("html"@) == "html"@ && language_for_extension("htm"@) == "html"@,
        language_for_extension("java"@) == "java"@,
        language_for_extension("js"@) == "javascript"@,
        language_for_extension("jsx"@) == "javascriptreact"@,
        language_for_extension("json"@) == "json"@,
        language_for_extension("kt"@) == "kotlin"@ && language_for_extension("kts"@) == "kotlin"@,
        language_for_extension("lua"@) == "lua"@,
        language_for_extension("md"@) == "markdown"@ && language_for_extension("markdown"@) == "markdown"@,
        language_for_extension("ml"@) == "ocaml"@ && language_for_extension("mli"@) == "ocaml"@,
        language_for_extension("txt"@) == "plaintext"@,
        language_for_extension("py"@) == "python"@,
        language_for_extension("r"@) == "r"@,
        language_for_extension("rb"@) == "ruby"@,
        language_for_extension("rs"@) == "rust"@,
        language_for_extension("scss"@) == "scss"@,
        language_for_extension("sh"@) == "shellscript"@ && language_for_extension("bash"@) == "shellscript"@ && language_for_extension("zsh"@) == "shellscript"@,
        language_for_extension("sql"@) == "sql"@,
        language_for_extension("swift"@) == "swift"@,
        language_for_extension("toml"@) == "toml"@,
        language_for_extension("ts"@) == "typescript"@,
        language_for_extension("tsx"@) == "typescriptreact"@,
        language_for_extension("xml"@) == "xml"@,
        language_for_extension("yaml"@) == "yaml"@ && language_for_extension("yml"@) == "yaml"@,
        language_for_extension("zig"@) == "zig"@,
{
    lemma_lang_c();
    lemma_lang_cpp();
    lemma_lang_css();
    lemma_lang_dart();
    lemma_lang_elixir();
    lemma_lang_erlang();
    lemma_lang_go();
    lemma_lang_haskell();
    lemma_lang_html();
    lemma_lang_java();
    lemma_lang_javascript();
    lemma_lang_javascriptreact();
    lemma_lang_json();
    lemma_lang_kotlin();
    lemma_lang_lua();
    lemma_lang_markdown();
    lemma_lang_ocaml();
    lemma_lang_plaintext();
    lemma_lang_python();
    lemma_lang_r();
    lemma_lang_ruby();
    lemma_lang_rust();
    lemma_lang_scss();
    lemma_lang_shellscript();
    lemma_lang_sql();
    lemma_lang_swift();
    lemma_lang_toml();
    lemma_lang_typescript();
    lemma_lang_typescriptreact();
    lemma_lang_xml();
    lemma_lang_yaml();
    lemma_lang_zig();
}

/// The language identifier for a lowercase extension.
pub fn language_id_for_extension(e: &String) -> (r: String)
    ensures
        r@ == language_for_extension(e@),
{
    let id: &str = if string_is(e, "rs") { "rust" }
    else if string_is(e, "py") { "python" }
    else if string_is(e, "js") { "javascript" }
    else if string_is(e, "jsx") { "javascriptreact" }
    else if string_is(e, "ts") { "typescript" }
    else if string_is(e, "tsx") { "typescriptreact" }
    else if string_is(e, "c") { "c" }
    else if string_is(e, "cpp") || string_is(e, "cc") || string_is(e, "cxx") || string_is(e, "h")
        || string_is(e, "hpp") { "cpp" }
    else if string_is(e, "go") { "go" }
    else if string_is(e, "java") { "java" }
    else if string_is(e, "rb") { "ruby" }
    else if string_is(e, "sh") || string_is(e, "bash") || string_is(e, "zsh") { "shellscript" }
    else if string_is(e, "json") { "json" }
    else if string_is(e, "yaml") || string_is(e, "yml") { "yaml" }
    else if string_is(e, "toml") { "toml" }
    else if string_is(e, "xml") { "xml" }
    else if string_is(e, "html") || string_is(e, "htm") { "html" }
    else if string_is(e, "css") { "css" }
    else if string_is(e, "scss") { "scss" }
    else if string_is(e, "md") || string_is(e, "markdown") { "markdown" }
    else if string_is(e, "sql") { "sql" }
    else if string_is(e, "lua") { "lua" }
    else if string_is(e, "swift") { "swift" }
    else if string_is(e, "kt") || string_is(e, "kts") { "kotlin" }
    else if string_is(e, "zig") { "zig" }
    else if string_is(e, "r") { "r" }
    else if string_is(e, "dart") { "dart" }
    else if string_is(e, "ex") || string_is(e, "exs") { "elixir" }
    else if string_is(e, "erl") || string_is(e, "hrl") { "erlang" }
    else if string_is(e, "hs") { "haskell" }
    else if string_is(e, "ml") || string_is(e, "mli") { "ocaml" }
    else { "plaintext" };
    id.to_owned()
}

/// The lowercased extension of a path, or the empty text when it has none.
pub open spec fn lowered_extension(path: Seq<char>) -> Seq<char> {
    match extension_of(path) {
        Some(e) => lowercase(e),
        None => lowercase(Seq::empty()),
    }
}

/// Detect a language identifier from a file path's extension.
pub fn detect_language_id(path: &str) -> (r: String)
    ensures
        r@ == language_for_extension(lowered_extension(path@)),
{
    let ext = match path_extension(path) {
        Some(e) => e,
        None => String::new(),
    };
    let lower = to_lowercase(ext.as_str());
    language_id_for_extension(&lower)
}

} // verus!
