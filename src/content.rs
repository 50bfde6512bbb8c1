use vstd::prelude::*;
use crate::names::{find_last_dot, last_dot, lemma_last_dot};

verus! {

/// The lower-case form of a text, as `str::to_lowercase` gives it.
pub uninterp spec fn lower_of(s: Seq<char>) -> Seq<char>;

/// Relies on `str::to_lowercase`: the result depends on the characters alone.
#[verifier::external_body]
pub(crate) fn lowercase(s: &str) -> (r: String)
    ensures
        r@ == lower_of(s@),
{
    s.to_lowercase()
}

/// The starter text of a new file with the (lower-case) extension `e`.
pub open spec fn content_for_ext(e: Seq<char>) -> Seq<char> {
    if e == "py"@ {
        "#!/usr/bin/env python3\n"@
    } else if e == "sh"@ || e == "bash"@ {
        "#!/bin/bash\n"@
    } else if e == "rb"@ {
        "#!/usr/bin/env ruby\n"@
    } else if e == "pl"@ {
        "#!/usr/bin/env perl\n"@
    } else if e == "js"@ || e == "ts"@ || e == "jsx"@ || e == "tsx"@ {
        "// \n"@
    } else if e == "html"@ || e == "htm"@ {
        "<!DOCTYPE html>\n<html>\n<head>\n    <title></title>\n</head>\n<body>\n    \n</body>\n</html>\n"@
    } else if e == "css"@ {
        "/* */\n"@
    } else if e == "rs"@ {
        "fn main() {\n    \n}\n"@
    } else if e == "c"@ || e == "cpp"@ || e == "cc"@ || e == "h"@ || e == "hpp"@ || e == "java"@ {
        "// \n"@
    } else if e == "go"@ {
        "package main\n\nfunc main() {\n    \n}\n"@
    } else if e == "md"@ || e == "markdown"@ {
        "# \n"@
    } else {
        "\n"@
    }
}

/// The starter text of a new file named `name`: chosen by what follows its
/// last `.`, in lower case; a single newline when there is no `.`.
pub open spec fn default_content(name: Seq<char>) -> Seq<char> {
    if last_dot(name) < 0 {
        "\n"@
    } else {
        content_for_ext(lower_of(name.subrange(last_dot(name) + 1, name.len() as int)))
    }
}

fn is(s: &String, lit: &str) -> (r: bool)
    ensures
        r == (s@ == lit@),
{
    *s == String::from_str(lit)
}

/// The starter text for a file with the lower-case extension `e`.
pub fn content_for_extension(e: &String) -> (r: String)
    ensures
        r@ == content_for_ext(e@),
{
    let text = if is(e, "py") {
        "#!/usr/bin/env python3\n"
    } else if is(e, "sh") || is(e, "bash") {
        "#!/bin/bash\n"
    } else if is(e, "rb") {
        "#!/usr/bin/env ruby\n"
    } else if is(e, "pl") {
        "#!/usr/bin/env perl\n"
    } else if is(e, "js") || is(e, "ts") || is(e, "jsx") || is(e, "tsx") {
        "// \n"
    } else if is(e, "html") || is(e, "htm") {
        "<!DOCTYPE html>\n<html>\n<head>\n    <title></title>\n</head>\n<body>\n    \n</body>\n</html>\n"
    } else if is(e, "css") {
        "/* */\n"
    } else if is(e, "rs") {
        "fn main() {\n    \n}\n"
    } else if is(e, "c") || is(e, "cpp") || is(e, "cc") || is(e, "h") || is(e, "hpp") || is(
        e,
        "java",
    ) {
        "// \n"
    } else if is(e, "go") {
        "package main\n\nfunc main() {\n    \n}\n"
    } else if is(e, "md") || is(e, "markdown") {
        "# \n"
    } else {
        "\n"
    };
    String::from_str(text)
}

/// The starter text of a new file named `filename` (see `default_content`).
pub fn default_file_content(filename: &str) -> (r: String)
    ensures
        r@ == default_content(filename@),
{
    match find_last_dot(filename) {
        None => String::from_str("\n"),
        Some(dot) => {
            proof {
                lemma_last_dot(filename@);
            }
            let n = filename.unicode_len();
            let ext = filename.substring_char(dot + 1, n);
            let lower = lowercase(ext);
            content_for_extension(&lower)
        },
    }
}

} // verus!
