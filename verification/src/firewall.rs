//! Firewall redirection rules.
//!
//! The listener works behind a destination-NAT ruleset: every TCP or UDP
//! port is redirected to the single listening port, except the operator's
//! own access port, which must stay reachable unmodified to avoid lockout.
//! The ruleset is modelled as a sequence of rules, rendered to the text the
//! privileged rule tool loads; a caller-supplied template with placeholders
//! may replace the built-in one.  Teardown is a fixed three-command
//! best-effort sequence.

use crate::event::Protocol;
use crate::text::chars_to_string;
use crate::text::push_decimal_u16;
use crate::text::push_str_chars;
use crate::text::replace_all;
use crate::text::spec_dec;
use crate::text::spec_replace;
use crate::text::str_to_chars;
use vstd::prelude::*;
use vstd::string::StringExecFns;

verus! {

/// One rule of the rendered ruleset.
#[derive(Clone, Copy, PartialEq, Eq, Structural, Debug)]
pub enum NftRule {
    /// Traffic to `port` over `protocol` is accepted unmodified.
    Accept { protocol: Protocol, port: u16 },
    /// Traffic to any port over `protocol` is destination-NAT'd to `to`.
    RedirectAll { protocol: Protocol, to: u16 },
}

/// The NAT prerouting chain of the built-in ruleset: accept the access port
/// for both protocols, then redirect everything else to the listening port.
pub open spec fn spec_nat_rules(access_port: u16, redirect_port: u16) -> Seq<NftRule> {
    seq![
        NftRule::Accept { protocol: Protocol::Tcp, port: access_port },
        NftRule::Accept { protocol: Protocol::Udp, port: access_port },
        NftRule::RedirectAll { protocol: Protocol::Tcp, to: redirect_port },
        NftRule::RedirectAll { protocol: Protocol::Udp, to: redirect_port },
    ]
}

/// The filter input chain of the built-in ruleset: explicit accepts
/// mirroring the NAT exceptions, under an accept policy.
pub open spec fn spec_filter_rules(access_port: u16) -> Seq<NftRule> {
    seq![
        NftRule::Accept { protocol: Protocol::Tcp, port: access_port },
        NftRule::Accept { protocol: Protocol::Udp, port: access_port },
    ]
}

/// Anti-lockout ordering: in the NAT chain, an accept rule for the access
/// port stands before every catch-all redirect rule, for both protocols.
pub proof fn lemma_anti_lockout(access_port: u16, redirect_port: u16)
    ensures
        ({
            let r = spec_nat_rules(access_port, redirect_port);
            &&& exists|i: int|
                0 <= i < r.len() && r[i] == (NftRule::Accept {
                    protocol: Protocol::Tcp,
                    port: access_port,
                })
            &&& forall|j: int|
                0 <= j < r.len() && (#[trigger] r[j]) is RedirectAll ==> exists|i: int|
                    0 <= i < j && ((#[trigger] r[i]) matches NftRule::Accept { port, .. }
                        && port == access_port)
        }),
{
    let r = spec_nat_rules(access_port, redirect_port);
    assert(r[0] == (NftRule::Accept { protocol: Protocol::Tcp, port: access_port }));
    assert forall|j: int| 0 <= j < r.len() && (#[trigger] r[j]) is RedirectAll implies exists|i: int|
        0 <= i < j && ((#[trigger] r[i]) matches NftRule::Accept { port, .. } && port == access_port) by {
        assert(j >= 2);
        assert((r[0] matches NftRule::Accept { port, .. } && port == access_port));
    }
}

/// Anti-lockout ordering in the rendered text itself: the built-in
/// ruleset's text holds the access port's TCP accept rule at a position
/// before a catch-all TCP redirect rule.
pub proof fn lemma_anti_lockout_text(access_port: u16, redirect_port: u16)
    ensures
        ({
            let text = spec_default_rules_text(access_port, redirect_port);
            let accept_line = spec_rule_line(
                NftRule::Accept { protocol: Protocol::Tcp, port: access_port },
            );
            let redirect_line = spec_rule_line(
                NftRule::RedirectAll { protocol: Protocol::Tcp, to: redirect_port },
            );
            exists|i: int, j: int|
                i < j && #[trigger] crate::text::spec_contains_at(text, i, accept_line)
                    && #[trigger] crate::text::spec_contains_at(text, j, redirect_line)
        }),
{
    let chain = spec_nat_rules(access_port, redirect_port);
    let a_tcp = spec_rule_line(NftRule::Accept { protocol: Protocol::Tcp, port: access_port });
    let a_udp = spec_rule_line(NftRule::Accept { protocol: Protocol::Udp, port: access_port });
    let r_tcp = spec_rule_line(
        NftRule::RedirectAll { protocol: Protocol::Tcp, to: redirect_port },
    );
    let ind = "    "@;
    let nl = "\n"@;
    let n0 = spec_rules_text(chain);
    let n1 = spec_rules_text(chain.drop_first());
    let n2 = spec_rules_text(chain.drop_first().drop_first());
    assert(chain.drop_first()[0] == chain[1]);
    assert(chain.drop_first().drop_first()[0] == chain[2]);
    assert(n0 == ind + a_tcp + nl + n1);
    assert(n1 == ind + a_udp + nl + n2);
    assert(n2 == ind + r_tcp + nl + spec_rules_text(chain.drop_first().drop_first().drop_first()));

    // The accept rule stands in the NAT block right after its indentation.
    crate::text::lemma_contains_at_self(a_tcp);
    crate::text::lemma_contains_at_right(ind, a_tcp, 0, a_tcp);
    crate::text::lemma_contains_at_left(ind + a_tcp, nl, ind.len() as int, a_tcp);
    crate::text::lemma_contains_at_left(ind + a_tcp + nl, n1, ind.len() as int, a_tcp);
    let i_n = ind.len() as int;
    assert(crate::text::spec_contains_at(n0, i_n, a_tcp));

    // The TCP redirect rule stands two lines further down.
    crate::text::lemma_contains_at_self(r_tcp);
    crate::text::lemma_contains_at_right(ind, r_tcp, 0, r_tcp);
    crate::text::lemma_contains_at_left(ind + r_tcp, nl, ind.len() as int, r_tcp);
    crate::text::lemma_contains_at_left(
        ind + r_tcp + nl,
        spec_rules_text(chain.drop_first().drop_first().drop_first()),
        ind.len() as int,
        r_tcp,
    );
    assert(crate::text::spec_contains_at(n2, ind.len() as int, r_tcp));
    crate::text::lemma_contains_at_right(ind + a_udp + nl, n2, ind.len() as int, r_tcp);
    let j_1 = (ind + a_udp + nl).len() + ind.len() as int;
    assert(crate::text::spec_contains_at(n1, j_1, r_tcp));
    crate::text::lemma_contains_at_right(ind + a_tcp + nl, n1, j_1, r_tcp);
    let j_n = (ind + a_tcp + nl).len() + j_1;
    assert(crate::text::spec_contains_at(n0, j_n, r_tcp));

    // Shift both occurrences into the full rendered text.
    let h1 =
        "table ip nat {\n  chain prerouting {\n    type nat hook prerouting priority -100; policy accept;\n"@;
    let h2 =
        "  }\n}\ntable ip filter {\n  chain input {\n    type filter hook input priority 0; policy accept;\n"@;
    let f0 = spec_rules_text(spec_filter_rules(access_port));
    let tail = "  }\n}\n"@;
    let text = spec_default_rules_text(access_port, redirect_port);
    assert(text == h1 + n0 + h2 + f0 + tail);

    crate::text::lemma_contains_at_right(h1, n0, i_n, a_tcp);
    crate::text::lemma_contains_at_left(h1 + n0, h2, h1.len() + i_n, a_tcp);
    crate::text::lemma_contains_at_left(h1 + n0 + h2, f0, h1.len() + i_n, a_tcp);
    crate::text::lemma_contains_at_left(h1 + n0 + h2 + f0, tail, h1.len() + i_n, a_tcp);
    crate::text::lemma_contains_at_right(h1, n0, j_n, r_tcp);
    crate::text::lemma_contains_at_left(h1 + n0, h2, h1.len() + j_n, r_tcp);
    crate::text::lemma_contains_at_left(h1 + n0 + h2, f0, h1.len() + j_n, r_tcp);
    crate::text::lemma_contains_at_left(h1 + n0 + h2 + f0, tail, h1.len() + j_n, r_tcp);
    assert(crate::text::spec_contains_at(text, h1.len() + i_n, a_tcp));
    assert(crate::text::spec_contains_at(text, h1.len() + j_n, r_tcp));
    assert(h1.len() + i_n < h1.len() + j_n);
}

/// The text of one rule, as it appears in the loaded ruleset.
pub open spec fn spec_rule_line(r: NftRule) -> Seq<char> {
    match r {
        NftRule::Accept { protocol, port } => protocol.spec_name() + " dport "@ + spec_dec(
            port as int,
        ) + " accept"@,
        NftRule::RedirectAll { protocol, to } => protocol.spec_name() + " dport 1-65535 redirect to :"@
            + spec_dec(to as int),
    }
}

/// The indented, newline-terminated lines of a chain's rules.
pub open spec fn spec_rules_text(rules: Seq<NftRule>) -> Seq<char>
    decreases rules.len(),
{
    if rules.len() == 0 {
        Seq::empty()
    } else {
        "    "@ + spec_rule_line(rules[0]) + "\n"@ + spec_rules_text(rules.drop_first())
    }
}

/// The complete built-in ruleset text for the given ports.
pub open spec fn spec_default_rules_text(access_port: u16, redirect_port: u16) -> Seq<char> {
    "table ip nat {\n  chain prerouting {\n    type nat hook prerouting priority -100; policy accept;\n"@
        + spec_rules_text(spec_nat_rules(access_port, redirect_port))
        + "  }\n}\ntable ip filter {\n  chain input {\n    type filter hook input priority 0; policy accept;\n"@
        + spec_rules_text(spec_filter_rules(access_port)) + "  }\n}\n"@
}

/// Appends the text of one rule to `out`.
fn push_rule_line(out: &mut Vec<char>, r: &NftRule)
    ensures
        final(out)@ == old(out)@ + spec_rule_line(*r),
{
    match r {
        NftRule::Accept { protocol, port } => {
            push_str_chars(out, protocol.name());
            push_str_chars(out, " dport ");
            push_decimal_u16(out, *port);
            push_str_chars(out, " accept");
        },
        NftRule::RedirectAll { protocol, to } => {
            push_str_chars(out, protocol.name());
            push_str_chars(out, " dport 1-65535 redirect to :");
            push_decimal_u16(out, *to);
        },
    }
    proof {
        assert(out@ =~= old(out)@ + spec_rule_line(*r));
    }
}

/// Appends the indented, newline-terminated lines of `rules` to `out`.
fn push_rules_text(out: &mut Vec<char>, rules: &Vec<NftRule>)
    ensures
        final(out)@ == old(out)@ + spec_rules_text(rules@),
{
    let n = rules.len();
    let mut i: usize = 0;
    proof {
        assert(rules@.skip(0) =~= rules@);
        assert(out@.skip(old(out)@.len() as int) =~= Seq::<char>::empty());
        assert(out@.subrange(0, old(out)@.len() as int) =~= old(out)@);
    }
    while i < n
        invariant
            n == rules@.len(),
            i <= n,
            spec_rules_text(rules@) == out@.skip(old(out)@.len() as int) + spec_rules_text(
                rules@.skip(i as int),
            ),
            out@.subrange(0, old(out)@.len() as int) == old(out)@,
            out@.len() >= old(out)@.len(),
        decreases n - i,
    {
        let ghost rest = rules@.skip(i as int);
        push_str_chars(out, "    ");
        push_rule_line(out, &rules[i]);
        push_str_chars(out, "\n");
        i = i + 1;
        proof {
            assert(rest[0] == rules@[i as int - 1]);
            assert(rest.drop_first() =~= rules@.skip(i as int));
            assert(out@.subrange(0, old(out)@.len() as int) =~= old(out)@);
            assert(out@.skip(old(out)@.len() as int) + spec_rules_text(rules@.skip(i as int)) =~=
                spec_rules_text(rules@));
        }
    }
    proof {
        assert(rules@.skip(n as int) =~= Seq::<NftRule>::empty());
        assert(out@ =~= out@.subrange(0, old(out)@.len() as int) + out@.skip(
            old(out)@.len() as int,
        ));
    }
}

/// The NAT prerouting rules for the given ports.
pub fn nat_rules(access_port: u16, redirect_port: u16) -> (r: Vec<NftRule>)
    ensures
        r@ == spec_nat_rules(access_port, redirect_port),
{
    let mut r: Vec<NftRule> = Vec::new();
    r.push(NftRule::Accept { protocol: Protocol::Tcp, port: access_port });
    r.push(NftRule::Accept { protocol: Protocol::Udp, port: access_port });
    r.push(NftRule::RedirectAll { protocol: Protocol::Tcp, to: redirect_port });
    r.push(NftRule::RedirectAll { protocol: Protocol::Udp, to: redirect_port });
    proof {
        assert(r@ =~= spec_nat_rules(access_port, redirect_port));
    }
    r
}

/// The filter input rules for the given access port.
pub fn filter_rules(access_port: u16) -> (r: Vec<NftRule>)
    ensures
        r@ == spec_filter_rules(access_port),
{
    let mut r: Vec<NftRule> = Vec::new();
    r.push(NftRule::Accept { protocol: Protocol::Tcp, port: access_port });
    r.push(NftRule::Accept { protocol: Protocol::Udp, port: access_port });
    proof {
        assert(r@ =~= spec_filter_rules(access_port));
    }
    r
}

/// Renders the complete built-in ruleset for the given ports.
pub fn render_default_rules(access_port: u16, redirect_port: u16) -> (r: String)
    ensures
        r@ == spec_default_rules_text(access_port, redirect_port),
{
    let mut out: Vec<char> = Vec::new();
    push_str_chars(
        &mut out,
        "table ip nat {\n  chain prerouting {\n    type nat hook prerouting priority -100; policy accept;\n",
    );
    let nat_chain = nat_rules(access_port, redirect_port);
    push_rules_text(&mut out, &nat_chain);
    push_str_chars(
        &mut out,
        "  }\n}\ntable ip filter {\n  chain input {\n    type filter hook input priority 0; policy accept;\n",
    );
    let filter = filter_rules(access_port);
    push_rules_text(&mut out, &filter);
    push_str_chars(&mut out, "  }\n}\n");
    proof {
        assert(out@ =~= spec_default_rules_text(access_port, redirect_port));
    }
    chars_to_string(&out)
}

/// The rendering of a caller-supplied rule template: every `{access_port}`
/// placeholder becomes the access port and every `{listener_port}`
/// placeholder the listening port, in decimal.
pub open spec fn spec_render_template(t: Seq<char>, access_port: u16, redirect_port: u16) -> Seq<
    char,
> {
    spec_replace(
        spec_replace(t, "{access_port}"@, spec_dec(access_port as int)),
        "{listener_port}"@,
        spec_dec(redirect_port as int),
    )
}

/// Substitutes both placeholders of a caller-supplied rule template.
pub fn render_template(template: &str, access_port: u16, redirect_port: u16) -> (r: String)
    ensures
        r@ == spec_render_template(template@, access_port, redirect_port),
{
    proof {
        reveal_strlit("{access_port}");
        reveal_strlit("{listener_port}");
    }
    let t = str_to_chars(template);
    let pat_access = str_to_chars("{access_port}");
    let pat_listener = str_to_chars("{listener_port}");
    let mut rep_access: Vec<char> = Vec::new();
    push_decimal_u16(&mut rep_access, access_port);
    let mut rep_listener: Vec<char> = Vec::new();
    push_decimal_u16(&mut rep_listener, redirect_port);
    let pass1 = replace_all(&t, &pat_access, &rep_access);
    let pass2 = replace_all(&pass1, &pat_listener, &rep_listener);
    chars_to_string(&pass2)
}

/// The ruleset text one listener run installs: the caller's template with
/// its placeholders substituted when one was supplied, and the built-in
/// ruleset otherwise.
pub fn render_rules(template: Option<&str>, access_port: u16, redirect_port: u16) -> (r: String)
    ensures
        template.is_some() ==> r@ == spec_render_template(
            template.unwrap()@,
            access_port,
            redirect_port,
        ),
        template.is_none() ==> r@ == spec_default_rules_text(access_port, redirect_port),
{
    match template {
        Some(t) => render_template(t, access_port, redirect_port),
        None => render_default_rules(access_port, redirect_port),
    }
}

/// The fixed teardown sequence: delete the NAT table, delete the filter
/// table, flush the remaining ruleset.
pub open spec fn spec_teardown_commands() -> Seq<Seq<char>> {
    seq!["delete table ip nat"@, "delete table ip filter"@, "flush ruleset"@]
}

/// The cleanup commands of one teardown invocation.  Every invocation
/// returns the same three commands, in order, so each attempt issues all
/// three independently of any earlier attempt's outcome.
pub fn teardown_commands() -> (r: Vec<String>)
    ensures
        r.deep_view() == spec_teardown_commands(),
{
    let mut r: Vec<String> = Vec::new();
    r.push(String::from_str("delete table ip nat"));
    r.push(String::from_str("delete table ip filter"));
    r.push(String::from_str("flush ruleset"));
    proof {
        assert(r.deep_view() =~~= spec_teardown_commands());
    }
    r
}

/// What a failed privileged command leaves behind for diagnostics.
#[derive(Debug)]
pub struct CommandError {
    pub stdout: String,
    pub stderr: String,
}

/// The verdict on a finished privileged command: exiting with success is
/// `Ok`, any other exit is a failure carrying the captured output.
pub fn command_outcome(exit_success: bool, stdout: String, stderr: String) -> (r: Result<
    (),
    CommandError,
>)
    ensures
        exit_success <==> r is Ok,
        !exit_success ==> (r matches Err(e) && e.stdout@ == stdout@ && e.stderr@ == stderr@),
{
    if exit_success {
        Ok(())
    } else {
        Err(CommandError { stdout, stderr })
    }
}

} // verus!
