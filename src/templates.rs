//! Named configuration presets.

use crate::config::Config;
use vstd::prelude::*;
use vstd::string::StringExecFns;

verus! {

pub open spec fn template_names() -> Seq<Seq<char>> {
    seq!["rust-default"@, "rust-ci-strict"@, "rust-fast-iter"@]
}

/// The preset named `name`: the default configuration, the same with every
/// feature in full mode, or the same with lint warnings allowed.
pub open spec fn is_template(name: Seq<char>, c: Config) -> bool {
    &&& c.pipeline.all_features_in_full == (name == "rust-ci-strict"@)
    &&& c.pipeline.clippy_deny_warnings == (name != "rust-fast-iter"@)
    &&& c.pipeline.stderr_max_lines == 80
    &&& c.storage.dir@ == ".dwf"@
    &&& c.storage.history_file@ == "history.jsonl"@
}

/// The names of the presets.
pub fn list_templates() -> (r: Vec<&'static str>)
    ensures
        r@.map_values(|x: &str| x@) == template_names(),
{
    let v = vec!["rust-default", "rust-ci-strict", "rust-fast-iter"];
    proof {
        assert(v@.map_values(|x: &str| x@) =~= template_names());
    }
    v
}

fn same_text(a: &str, b: &str) -> (r: bool)
    ensures
        r == (a@ == b@),
{
    String::from_str(a) == String::from_str(b)
}

/// The preset named `name`, or `None` for an unknown name.
pub fn get_template(name: &str) -> (r: Option<Config>)
    ensures
        r is Some <==> template_names().contains(name@),
        r is Some ==> is_template(name@, r->Some_0),
{
    proof {
        assert(template_names()[0] == "rust-default"@);
        assert(template_names()[1] == "rust-ci-strict"@);
        assert(template_names()[2] == "rust-fast-iter"@);
        reveal_strlit("rust-default");
        reveal_strlit("rust-ci-strict");
        reveal_strlit("rust-fast-iter");
        assert("rust-default"@ != "rust-ci-strict"@) by {
            assert("rust-default"@.len() != "rust-ci-strict"@.len());
        }
        assert("rust-default"@ != "rust-fast-iter"@) by {
            assert("rust-default"@.len() != "rust-fast-iter"@.len());
        }
        assert("rust-ci-strict"@ != "rust-fast-iter"@) by {
            assert("rust-ci-strict"@[5] != "rust-fast-iter"@[5]);
        }
    }
    if same_text(name, "rust-default") {
        Some(Config::default())
    } else if same_text(name, "rust-ci-strict") {
        let mut c = Config::default();
        c.pipeline.all_features_in_full = true;
        c.pipeline.clippy_deny_warnings = true;
        Some(c)
    } else if same_text(name, "rust-fast-iter") {
        let mut c = Config::default();
        c.pipeline.all_features_in_full = false;
        c.pipeline.clippy_deny_warnings = false;
        Some(c)
    } else {
        None
    }
}

} // verus!
