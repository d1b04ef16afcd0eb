//! The source languages of the structural search and the names they go
//! by.

use vstd::prelude::*;
use crate::chars::to_chars;
use crate::error::ServiceError;
use crate::sandbox::same_chars;
use crate::service::FileSystemService;
use crate::walk::unicode_lowercase;

verus! {

/// A source language that the structural search can parse.
#[derive(Debug, Clone, Copy, PartialEq, Eq, Structural)]
pub enum Language {
    TypeScript,
    Tsx,
    JavaScript,
    Python,
    Rust,
    Go,
    Java,
    Kotlin,
    Cpp,
    C,
    CSharp,
    Swift,
    Ruby,
    Php,
    Html,
    Css,
    Json,
    Yaml,
    Bash,
    Lua,
    Elixir,
    Scala,
    Haskell,
    Solidity,
    Nix,
    Hcl,
}

/// The language that goes by the lower-case name `a`, if there is one.
pub open spec fn language_of_alias(a: Seq<char>) -> Option<Language> {
    if a == "typescript"@ || a == "ts"@ {
        Some(Language::TypeScript)
    } else if a == "tsx"@ {
        Some(Language::Tsx)
    } else if a == "javascript"@ || a == "js"@ {
        Some(Language::JavaScript)
    } else if a == "python"@ || a == "py"@ {
        Some(Language::Python)
    } else if a == "rust"@ || a == "rs"@ {
        Some(Language::Rust)
    } else if a == "go"@ {
        Some(Language::Go)
    } else if a == "java"@ {
        Some(Language::Java)
    } else if a == "kotlin"@ || a == "kt"@ {
        Some(Language::Kotlin)
    } else if a == "cpp"@ || a == "c++"@ || a == "cxx"@ {
        Some(Language::Cpp)
    } else if a == "c"@ {
        Some(Language::C)
    } else if a == "csharp"@ || a == "c#"@ || a == "cs"@ {
        Some(Language::CSharp)
    } else if a == "swift"@ {
        Some(Language::Swift)
    } else if a == "ruby"@ || a == "rb"@ {
        Some(Language::Ruby)
    } else if a == "php"@ {
        Some(Language::Php)
    } else if a == "html"@ {
        Some(Language::Html)
    } else if a == "css"@ {
        Some(Language::Css)
    } else if a == "json"@ {
        Some(Language::Json)
    } else if a == "yaml"@ || a == "yml"@ {
        Some(Language::Yaml)
    } else if a == "bash"@ || a == "sh"@ {
        Some(Language::Bash)
    } else if a == "lua"@ {
        Some(Language::Lua)
    } else if a == "elixir"@ || a == "ex"@ {
        Some(Language::Elixir)
    } else if a == "scala"@ {
        Some(Language::Scala)
    } else if a == "haskell"@ || a == "hs"@ {
        Some(Language::Haskell)
    } else if a == "solidity"@ || a == "sol"@ {
        Some(Language::Solidity)
    } else if a == "nix"@ {
        Some(Language::Nix)
    } else if a == "hcl"@ || a == "terraform"@ {
        Some(Language::Hcl)
    } else {
        None
    }
}

/// The name under which the parser knows the language.
pub open spec fn parser_name(language: Language) -> Seq<char> {
    match language {
        Language::TypeScript => "typescript"@,
        Language::Tsx => "tsx"@,
        Language::JavaScript => "javascript"@,
        Language::Python => "python"@,
        Language::Rust => "rust"@,
        Language::Go => "go"@,
        Language::Java => "java"@,
        Language::Kotlin => "kotlin"@,
        Language::Cpp => "cpp"@,
        Language::C => "c"@,
        Language::CSharp => "csharp"@,
        Language::Swift => "swift"@,
        Language::Ruby => "ruby"@,
        Language::Php => "php"@,
        Language::Html => "html"@,
        Language::Css => "css"@,
        Language::Json => "json"@,
        Language::Yaml => "yaml"@,
        Language::Bash => "bash"@,
        Language::Lua => "lua"@,
        Language::Elixir => "elixir"@,
        Language::Scala => "scala"@,
        Language::Haskell => "haskell"@,
        Language::Solidity => "solidity"@,
        Language::Nix => "nix"@,
        Language::Hcl => "hcl"@,
    }
}

/// The name of the language as a message shows it.
pub open spec fn shown_name(language: Language) -> Seq<char> {
    match language {
        Language::TypeScript => "TypeScript"@,
        Language::Tsx => "Tsx"@,
        Language::JavaScript => "JavaScript"@,
        Language::Python => "Python"@,
        Language::Rust => "Rust"@,
        Language::Go => "Go"@,
        Language::Java => "Java"@,
        Language::Kotlin => "Kotlin"@,
        Language::Cpp => "Cpp"@,
        Language::C => "C"@,
        Language::CSharp => "CSharp"@,
        Language::Swift => "Swift"@,
        Language::Ruby => "Ruby"@,
        Language::Php => "Php"@,
        Language::Html => "Html"@,
        Language::Css => "Css"@,
        Language::Json => "Json"@,
        Language::Yaml => "Yaml"@,
        Language::Bash => "Bash"@,
        Language::Lua => "Lua"@,
        Language::Elixir => "Elixir"@,
        Language::Scala => "Scala"@,
        Language::Haskell => "Haskell"@,
        Language::Solidity => "Solidity"@,
        Language::Nix => "Nix"@,
        Language::Hcl => "Hcl"@,
    }
}

impl Language {
    /// The name under which the parser knows the language.
    pub fn name(&self) -> (name: &'static str)
        ensures
            name@ == parser_name(*self),
    {
        match self {
            Language::TypeScript => "typescript",
            Language::Tsx => "tsx",
            Language::JavaScript => "javascript",
            Language::Python => "python",
            Language::Rust => "rust",
            Language::Go => "go",
            Language::Java => "java",
            Language::Kotlin => "kotlin",
            Language::Cpp => "cpp",
            Language::C => "c",
            Language::CSharp => "csharp",
            Language::Swift => "swift",
            Language::Ruby => "ruby",
            Language::Php => "php",
            Language::Html => "html",
            Language::Css => "css",
            Language::Json => "json",
            Language::Yaml => "yaml",
            Language::Bash => "bash",
            Language::Lua => "lua",
            Language::Elixir => "elixir",
            Language::Scala => "scala",
            Language::Haskell => "haskell",
            Language::Solidity => "solidity",
            Language::Nix => "nix",
            Language::Hcl => "hcl",
        }
    }

    /// The name of the language as a message shows it.
    pub fn display_name(&self) -> (name: &'static str)
        ensures
            name@ == shown_name(*self),
    {
        match self {
            Language::TypeScript => "TypeScript",
            Language::Tsx => "Tsx",
            Language::JavaScript => "JavaScript",
            Language::Python => "Python",
            Language::Rust => "Rust",
            Language::Go => "Go",
            Language::Java => "Java",
            Language::Kotlin => "Kotlin",
            Language::Cpp => "Cpp",
            Language::C => "C",
            Language::CSharp => "CSharp",
            Language::Swift => "Swift",
            Language::Ruby => "Ruby",
            Language::Php => "Php",
            Language::Html => "Html",
            Language::Css => "Css",
            Language::Json => "Json",
            Language::Yaml => "Yaml",
            Language::Bash => "Bash",
            Language::Lua => "Lua",
            Language::Elixir => "Elixir",
            Language::Scala => "Scala",
            Language::Haskell => "Haskell",
            Language::Solidity => "Solidity",
            Language::Nix => "Nix",
            Language::Hcl => "Hcl",
        }
    }
}

/// Whether `chars` spell `word`.
fn spells(chars: &Vec<char>, word: &str) -> (same: bool)
    ensures
        same == (chars@ == word@),
{
    let other = to_chars(word);
    same_chars(chars, &other)
}

/// The language that goes by the lower-case name `alias`.
pub fn language_for(alias: &str) -> (language: Option<Language>)
    ensures
        language == language_of_alias(alias@),
{
    let a = to_chars(alias);
    if spells(&a, "typescript") || spells(&a, "ts") {
        Some(Language::TypeScript)
    } else if spells(&a, "tsx") {
        Some(Language::Tsx)
    } else if spells(&a, "javascript") || spells(&a, "js") {
        Some(Language::JavaScript)
    } else if spells(&a, "python") || spells(&a, "py") {
        Some(Language::Python)
    } else if spells(&a, "rust") || spells(&a, "rs") {
        Some(Language::Rust)
    } else if spells(&a, "go") {
        Some(Language::Go)
    } else if spells(&a, "java") {
        Some(Language::Java)
    } else if spells(&a, "kotlin") || spells(&a, "kt") {
        Some(Language::Kotlin)
    } else if spells(&a, "cpp") || spells(&a, "c++") || spells(&a, "cxx") {
        Some(Language::Cpp)
    } else if spells(&a, "c") {
        Some(Language::C)
    } else if spells(&a, "csharp") || spells(&a, "c#") || spells(&a, "cs") {
        Some(Language::CSharp)
    } else if spells(&a, "swift") {
        Some(Language::Swift)
    } else if spells(&a, "ruby") || spells(&a, "rb") {
        Some(Language::Ruby)
    } else if spells(&a, "php") {
        Some(Language::Php)
    } else if spells(&a, "html") {
        Some(Language::Html)
    } else if spells(&a, "css") {
        Some(Language::Css)
    } else if spells(&a, "json") {
        Some(Language::Json)
    } else if spells(&a, "yaml") || spells(&a, "yml") {
        Some(Language::Yaml)
    } else if spells(&a, "bash") || spells(&a, "sh") {
        Some(Language::Bash)
    } else if spells(&a, "lua") {
        Some(Language::Lua)
    } else if spells(&a, "elixir") || spells(&a, "ex") {
        Some(Language::Elixir)
    } else if spells(&a, "scala") {
        Some(Language::Scala)
    } else if spells(&a, "haskell") || spells(&a, "hs") {
        Some(Language::Haskell)
    } else if spells(&a, "solidity") || spells(&a, "sol") {
        Some(Language::Solidity)
    } else if spells(&a, "nix") {
        Some(Language::Nix)
    } else if spells(&a, "hcl") || spells(&a, "terraform") {
        Some(Language::Hcl)
    } else {
        None
    }
}

impl FileSystemService {
    /// The language that `language` names, without regard to case. A name
    /// that no language goes by is refused, with the name as it was given.
    pub fn parse_language(&self, language: &str) -> (parsed: Result<Language, ServiceError>)
        ensures
            match language_of_alias(unicode_lowercase(language@)) {
                Some(l) => parsed == Ok::<Language, ServiceError>(l),
                None => parsed is Err && parsed->Err_0 is UnsupportedLanguage && parsed->Err_0->UnsupportedLanguage_0@ == language@,
            },
    {
        let lower = language.to_lowercase();
        match language_for(lower.as_str()) {
            Some(l) => Ok(l),
            None => Err(ServiceError::UnsupportedLanguage(language.to_owned())),
        }
    }
}

} // verus!
