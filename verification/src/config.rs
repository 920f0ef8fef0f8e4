//! Writing services out as `rudder.toml`.
use vstd::prelude::*;
use crate::detect::services_view;
use crate::service::{cmd_line, Service, ServiceView};

verus! {

/// What `format!("{:?}", s)` gives for a string: the text in double quotes,
/// escaped as Rust's `Debug` for `str` does.
pub uninterp spec fn debug_quoted(s: Seq<char>) -> Seq<char>;

/// `format!("{:?}", s)` for a string slice. The contract names the result.
#[verifier::external_body]
fn debug_quote(s: &str) -> (r: String)
    ensures
        r@ == debug_quoted(s@),
{
    format!("{:?}", s)
}

/// The `[[service]]` table of one service: name, command line, and the
/// directory and URL where set, each value quoted; then a blank line.
pub open spec fn service_table(s: ServiceView) -> Seq<char> {
    "[[service]]\n"@ + "name = "@ + debug_quoted(s.name) + "\n"@ + "cmd = "@ + debug_quoted(
        cmd_line(s.executable, s.args),
    ) + "\n"@ + (match s.dir {
        Some(d) => "dir = "@ + debug_quoted(d) + "\n"@,
        None => seq![],
    }) + (match s.url {
        Some(u) => "url = "@ + debug_quoted(u) + "\n"@,
        None => seq![],
    }) + "\n"@
}

/// The configuration text for a list of services: their tables in order.
pub open spec fn config_toml(v: Seq<ServiceView>) -> Seq<char>
    decreases v.len(),
{
    if v.len() == 0 {
        seq![]
    } else {
        config_toml(v.drop_last()) + service_table(v.last())
    }
}

fn optional_line(key: &str, value: &Option<String>) -> (r: String)
    ensures
        r@ == match crate::service::opt_view(*value) {
            Some(v) => key@ + " = "@ + debug_quoted(v) + "\n"@,
            None => seq![],
        },
{
    match value {
        Some(v) => {
            let mut out = key.to_owned();
            out.append(" = ");
            out.append(debug_quote(v.as_str()).as_str());
            out.append("\n");
            out
        },
        None => String::new(),
    }
}

fn service_table_exec(s: &Service) -> (r: String)
    ensures
        r@ == service_table(s@),
{
    let mut out = "[[service]]\n".to_owned();
    out.append("name = ");
    out.append(debug_quote(s.name.as_str()).as_str());
    out.append("\n");
    out.append("cmd = ");
    out.append(debug_quote(s.cmd_string().as_str()).as_str());
    out.append("\n");
    let ghost head = out@;
    let d = optional_line("dir", &s.dir);
    let u = optional_line("url", &s.url);
    out.append(d.as_str());
    out.append(u.as_str());
    out.append("\n");
    assert("dir"@ + " = "@ =~= "dir = "@) by {
        reveal_strlit("dir");
        reveal_strlit(" = ");
        reveal_strlit("dir = ");
    }
    assert("url"@ + " = "@ =~= "url = "@) by {
        reveal_strlit("url");
        reveal_strlit(" = ");
        reveal_strlit("url = ");
    }
    assert(out@ =~= service_table(s@));
    out
}

/// The text of `rudder.toml` for these services.
pub fn generate_config_toml(services: &Vec<Service>) -> (r: String)
    ensures
        r@ == config_toml(services_view(services@)),
{
    let ghost sv = services_view(services@);
    let mut out = String::new();
    let mut i: usize = 0;
    assert(sv.take(0) =~= Seq::<ServiceView>::empty());
    while i < services.len()
        invariant
            i <= services.len(),
            sv == services_view(services@),
            out@ == config_toml(sv.take(i as int)),
        decreases services.len() - i,
    {
        assert(sv.take(i + 1).drop_last() =~= sv.take(i as int));
        assert(sv.take(i + 1).last() == services@[i as int]@);
        let t = service_table_exec(&services[i]);
        out.append(t.as_str());
        i += 1;
    }
    assert(sv.take(sv.len() as int) =~= sv);
    out
}

} // verus!
