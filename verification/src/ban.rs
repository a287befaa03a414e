//! The firewall commands that ban and unban an IP: `nft` rules in a table
//! and chain of their own, or `iptables` rules in `INPUT` where `nft` is not
//! installed.
use vstd::prelude::*;

use crate::text::{
    after_last, after_last_chars, all_in, chars_of, contains, contains_chars, find_from,
    in_class, is_ascii_digit, is_ws, lemma_find_from, lemma_last_occurrence,
    lemma_scan_unique, lines, lines_of, occurs_at, rscan_ws,
    split_char, split_from, trim, trim_str, views, CharClass,
};

verus! {

/// Which firewall tool the host has.
#[derive(Debug, Clone, Copy, PartialEq, Eq, Structural)]
pub enum Firewall {
    Nft,
    Iptables,
}

/// One run of a firewall program.
#[derive(Debug, Clone)]
pub struct FirewallCommand {
    pub program: String,
    pub args: Vec<String>,
    /// A failure of this run fails the whole operation; otherwise it is
    /// ignored.
    pub must_succeed: bool,
}

/// `c` runs `program` with `args`.
pub open spec fn runs(c: FirewallCommand, program: Seq<char>, args: Seq<Seq<char>>, must_succeed: bool) -> bool {
    &&& c.program@ == program
    &&& views(c.args@) == args
    &&& c.must_succeed == must_succeed
}

fn push_owned(v: &mut Vec<String>, s: &str)
    ensures
        views(final(v)@) == views(old(v)@).push(s@),
{
    let t = String::from_str(s);
    v.push(t);
    assert(views(final(v)@) =~= views(old(v)@).push(s@));
}

fn command(program: &str, args: Vec<String>, must_succeed: bool) -> (c: FirewallCommand)
    ensures
        c.program@ == program@,
        c.args@ == args@,
        c.must_succeed == must_succeed,
{
    FirewallCommand { program: String::from_str(program), args, must_succeed }
}

/// The runs that ban `ip`: with `nft`, create the table `inet antibot` and
/// its `input` chain hooked at priority 0 (both may already exist, so their
/// failures are ignored), then add a rule that drops the IP's packets; with
/// `iptables`, append a `DROP` rule to `INPUT`. The rule must be added.
pub open spec fn ban_runs(fw: Firewall, ip: Seq<char>, cmds: Seq<FirewallCommand>) -> bool {
    match fw {
        Firewall::Nft => {
            &&& cmds.len() == 3
            &&& runs(cmds[0], "nft"@, seq!["add"@, "table"@, "inet"@, "antibot"@], false)
            &&& runs(
                cmds[1],
                "nft"@,
                seq![
                    "add"@, "chain"@, "inet"@, "antibot"@, "input"@, "{"@, "type"@, "filter"@,
                    "hook"@, "input"@, "priority"@, "0"@, ";"@, "}"@,
                ],
                false,
            )
            &&& runs(
                cmds[2],
                "nft"@,
                seq![
                    "add"@, "rule"@, "inet"@, "antibot"@, "input"@, "ip"@, "saddr"@, ip, "drop"@,
                ],
                true,
            )
        },
        Firewall::Iptables => {
            &&& cmds.len() == 1
            &&& runs(cmds[0], "iptables"@, seq!["-A"@, "INPUT"@, "-s"@, ip, "-j"@, "DROP"@], true)
        },
    }
}

/// The firewall runs that ban `ip`.
pub fn ban_commands(fw: Firewall, ip: &str) -> (r: Vec<FirewallCommand>)
    ensures
        ban_runs(fw, ip@, r@),
{
    let mut r: Vec<FirewallCommand> = Vec::new();
    match fw {
        Firewall::Nft => {
            let mut a: Vec<String> = Vec::new();
            push_owned(&mut a, "add");
            push_owned(&mut a, "table");
            push_owned(&mut a, "inet");
            push_owned(&mut a, "antibot");
            assert(views(a@) =~= seq!["add"@, "table"@, "inet"@, "antibot"@]);
            r.push(command("nft", a, false));
            let mut b: Vec<String> = Vec::new();
            push_owned(&mut b, "add");
            push_owned(&mut b, "chain");
            push_owned(&mut b, "inet");
            push_owned(&mut b, "antibot");
            push_owned(&mut b, "input");
            push_owned(&mut b, "{");
            push_owned(&mut b, "type");
            push_owned(&mut b, "filter");
            push_owned(&mut b, "hook");
            push_owned(&mut b, "input");
            push_owned(&mut b, "priority");
            push_owned(&mut b, "0");
            push_owned(&mut b, ";");
            push_owned(&mut b, "}");
            assert(views(b@) =~= seq![
                "add"@, "chain"@, "inet"@, "antibot"@, "input"@, "{"@, "type"@, "filter"@,
                "hook"@, "input"@, "priority"@, "0"@, ";"@, "}"@,
            ]);
            r.push(command("nft", b, false));
            let mut c: Vec<String> = Vec::new();
            push_owned(&mut c, "add");
            push_owned(&mut c, "rule");
            push_owned(&mut c, "inet");
            push_owned(&mut c, "antibot");
            push_owned(&mut c, "input");
            push_owned(&mut c, "ip");
            push_owned(&mut c, "saddr");
            push_owned(&mut c, ip);
            push_owned(&mut c, "drop");
            assert(views(c@) =~= seq![
                "add"@, "rule"@, "inet"@, "antibot"@, "input"@, "ip"@, "saddr"@, ip@, "drop"@,
            ]);
            r.push(command("nft", c, true));
        },
        Firewall::Iptables => {
            let mut a: Vec<String> = Vec::new();
            push_owned(&mut a, "-A");
            push_owned(&mut a, "INPUT");
            push_owned(&mut a, "-s");
            push_owned(&mut a, ip);
            push_owned(&mut a, "-j");
            push_owned(&mut a, "DROP");
            assert(views(a@) =~= seq!["-A"@, "INPUT"@, "-s"@, ip@, "-j"@, "DROP"@]);
            r.push(command("iptables", a, true));
        },
    }
    r
}

/// The arguments of the `nft` run that lists the rules of the `input`
/// chain with their handles (`nft -a list chain inet antibot input`).
pub open spec fn nft_listing_args() -> Seq<Seq<char>> {
    seq!["-a"@, "list"@, "chain"@, "inet"@, "antibot"@, "input"@]
}

pub fn nft_listing_command() -> (r: Vec<String>)
    ensures
        views(r@) == nft_listing_args(),
{
    let mut a: Vec<String> = Vec::new();
    push_owned(&mut a, "-a");
    push_owned(&mut a, "list");
    push_owned(&mut a, "chain");
    push_owned(&mut a, "inet");
    push_owned(&mut a, "antibot");
    push_owned(&mut a, "input");
    assert(views(a@) =~= nft_listing_args());
    a
}

/// The handle that a listed rule names: the text after the last `handle`
/// of the line (the whole line when there is none), trimmed.
pub open spec fn rule_handle(line: Seq<char>) -> Seq<char> {
    trim(after_last(line, "handle"@))
}

/// The handles of the listed rules whose line mentions `ip`, in listing
/// order.
pub open spec fn handles_for(listing: Seq<char>, ip: Seq<char>) -> Seq<Seq<char>> {
    lines(listing).filter(|l: Seq<char>| contains(l, ip)).map_values(|l: Seq<char>| rule_handle(l))
}

/// The handles of the rules, in an `nft -a` listing, that drop `ip`.
pub fn rule_handles(listing: &str, ip: &str) -> (r: Vec<String>)
    ensures
        views(r@) == handles_for(listing@, ip@),
{
    let ls = lines_of(listing);
    let ipv = chars_of(ip);
    let pat = chars_of("handle");
    proof {
        reveal_strlit("handle");
    }
    let ghost kept = |l: Seq<char>| contains(l, ip@);
    let ghost hd = |l: Seq<char>| rule_handle(l);
    let mut r: Vec<String> = Vec::new();
    let mut i: usize = 0;
    while i < ls.len()
        invariant
            i <= ls.len(),
            views(ls@) == lines(listing@),
            ipv@ == ip@,
            pat@ == "handle"@,
            pat.len() > 0,
            kept == (|l: Seq<char>| contains(l, ip@)),
            hd == (|l: Seq<char>| rule_handle(l)),
            views(r@) == lines(listing@).take(i as int).filter(kept).map_values(hd),
        decreases ls.len() - i,
    {
        let line = chars_of(ls[i].as_str());
        assert(views(ls@)[i as int] == ls@[i as int]@);
        let ghost before = r@;
        proof {
            reveal_with_fuel(Seq::<_>::filter, 1);
            assert(lines(listing@).take(i + 1).drop_last() =~= lines(listing@).take(i as int));
        }
        if contains_chars(&line, &ipv) {
            let after = after_last_chars(&line, &pat);
            let h = trim_str(after.as_str());
            let ghost li = lines(listing@)[i as int];
            assert(line@ == li);
            assert(kept(li));
            assert(h@ == hd(li));
            assert(lines(listing@).take(i + 1).last() == li);
            assert(lines(listing@).take(i + 1).filter(kept) == lines(listing@).take(i as int).filter(kept).push(li));
            r.push(h);
            assert(views(r@) =~= views(before).push(h@));
            assert(lines(listing@).take(i as int).filter(kept).push(li).map_values(hd) =~= lines(listing@).take(i as int).filter(kept).map_values(hd).push(hd(li)));
            assert(views(r@) =~= lines(listing@).take(i + 1).filter(kept).map_values(hd));
        } else {
            let ghost li = lines(listing@)[i as int];
            assert(line@ == li);
            assert(!kept(li));
            assert(lines(listing@).take(i + 1).last() == li);
            assert(views(r@) =~= lines(listing@).take(i + 1).filter(kept).map_values(hd));
        }
        i = i + 1;
    }
    assert(lines(listing@).take(ls.len() as int) =~= lines(listing@));
    r
}

/// The runs that lift the ban of `ip`. With `nft`: delete, by handle, each
/// rule whose line in `listing` (the output of the listing run) mentions the
/// IP. With `iptables`: delete the `DROP` rule of `INPUT`. No failure of
/// these runs is an error.
pub open spec fn unban_runs(fw: Firewall, listing: Seq<char>, ip: Seq<char>, cmds: Seq<FirewallCommand>) -> bool {
    match fw {
        Firewall::Nft => {
            let hs = handles_for(listing, ip);
            &&& cmds.len() == hs.len()
            &&& forall|k: int|
                0 <= k < hs.len() ==> runs(
                    #[trigger] cmds[k],
                    "nft"@,
                    seq!["delete"@, "rule"@, "inet"@, "antibot"@, "input"@, "handle"@, hs[k]],
                    false,
                )
        },
        Firewall::Iptables => {
            &&& cmds.len() == 1
            &&& runs(cmds[0], "iptables"@, seq!["-D"@, "INPUT"@, "-s"@, ip, "-j"@, "DROP"@], false)
        },
    }
}

/// The firewall runs that lift the ban of `ip`; `listing` is what the
/// listing run printed (ignored for `iptables`).
pub fn unban_commands(fw: Firewall, listing: &str, ip: &str) -> (r: Vec<FirewallCommand>)
    ensures
        unban_runs(fw, listing@, ip@, r@),
{
    let mut r: Vec<FirewallCommand> = Vec::new();
    match fw {
        Firewall::Nft => {
            let hs = rule_handles(listing, ip);
            let mut i: usize = 0;
            while i < hs.len()
                invariant
                    i <= hs.len(),
                    views(hs@) == handles_for(listing@, ip@),
                    r.len() == i,
                    forall|k: int|
                        0 <= k < i ==> runs(
                            #[trigger] r@[k],
                            "nft"@,
                            seq!["delete"@, "rule"@, "inet"@, "antibot"@, "input"@, "handle"@, views(hs@)[k]],
                            false,
                        ),
                decreases hs.len() - i,
            {
                let mut a: Vec<String> = Vec::new();
                push_owned(&mut a, "delete");
                push_owned(&mut a, "rule");
                push_owned(&mut a, "inet");
                push_owned(&mut a, "antibot");
                push_owned(&mut a, "input");
                push_owned(&mut a, "handle");
                push_owned(&mut a, hs[i].as_str());
                assert(views(hs@)[i as int] == hs@[i as int]@);
                assert(views(a@) =~= seq!["delete"@, "rule"@, "inet"@, "antibot"@, "input"@, "handle"@, views(hs@)[i as int]]);
                r.push(command("nft", a, false));
                i = i + 1;
            }
        },
        Firewall::Iptables => {
            let mut a: Vec<String> = Vec::new();
            push_owned(&mut a, "-D");
            push_owned(&mut a, "INPUT");
            push_owned(&mut a, "-s");
            push_owned(&mut a, ip);
            push_owned(&mut a, "-j");
            push_owned(&mut a, "DROP");
            assert(views(a@) =~= seq!["-D"@, "INPUT"@, "-s"@, ip@, "-j"@, "DROP"@]);
            r.push(command("iptables", a, false));
        },
    }
    r
}

/// How `nft -a` lists the rule that banning `ip` adds: its own words
/// `ip saddr <ip> drop`, after some indentation, then `# handle <n>`.
pub open spec fn listed_rule(indent: Seq<char>, ip: Seq<char>, n: Seq<char>) -> Seq<char> {
    indent + "ip saddr "@ + ip + " drop # handle "@ + n
}

/// Unbanning undoes banning: in a listing that shows the rule for `ip`
/// with handle `n`, the handle to delete for `ip` is exactly `n`.
pub proof fn unban_finds_listed_rule(indent: Seq<char>, ip: Seq<char>, n: Seq<char>)
    requires
        forall|i: int| 0 <= i < indent.len() ==> #[trigger] indent[i] != '\n',
        forall|i: int| 0 <= i < ip.len() ==> #[trigger] ip[i] != '\n',
        n.len() > 0,
        forall|i: int| 0 <= i < n.len() ==> is_ascii_digit(#[trigger] n[i]),
    ensures
        handles_for(listed_rule(indent, ip, n) + seq!['\n'], ip) == seq![n],
{
    reveal_strlit("ip saddr ");
    reveal_strlit(" drop # handle ");
    reveal_strlit("handle");
    let line = listed_rule(indent, ip, n);
    let s = line + seq!['\n'];
    let a = indent.len() as int;
    let b = a + 9 + ip.len();
    let p = b + 8;
    assert(line.len() == p + 7 + n.len());
    // the line holds no line break, and ends with a digit
    assert forall|i: int| 0 <= i < line.len() implies #[trigger] line[i] != '\n' by {
        if i < a {
            assert(line[i] == indent[i]);
        } else if i < a + 9 {
            assert(line[i] == "ip saddr "@[i - a]);
        } else if i < b {
            assert(line[i] == ip[i - a - 9]);
        } else if i < b + 15 {
            assert(line[i] == " drop # handle "@[i - b]);
        } else {
            assert(line[i] == n[i - b - 15]);
            assert(is_ascii_digit(n[i - b - 15]));
        }
    }
    assert(line.last() == n.last());
    assert(is_ascii_digit(n[n.len() - 1]));
    // the listing is that one line
    assert(find_from(s, 0, '\n') == line.len()) by {
        lemma_find_from(s, 0, '\n');
        let f = find_from(s, 0, '\n');
        assert(s[line.len() as int] == '\n');
        if f < line.len() {
            assert(s[f] == line[f]);
        }
    }
    assert(find_from(s, line.len() + 1int, '\n') == s.len());
    assert(split_from(s, line.len() + 1int, '\n') == seq![Seq::<char>::empty()]) by {
        assert(s.subrange(line.len() + 1int, s.len() as int) =~= Seq::<char>::empty());
    }
    assert(s.subrange(0, line.len() as int) =~= line);
    assert(split_char(s, '\n') == seq![line, Seq::<char>::empty()]);
    assert(lines(s) =~= seq![line]);
    // it mentions the IP
    assert(occurs_at(line, ip, a + 9)) by {
        assert(line.subrange(a + 9, b) =~= ip);
    }
    assert(contains(line, ip));
    // its last `handle` is the one before the number
    assert(occurs_at(line, "handle"@, p)) by {
        assert(line.subrange(p, p + 6) =~= "handle"@);
    }
    assert forall|j: int| p < j <= line.len() - 6 implies !occurs_at(line, "handle"@, j) by {
        assert(line[j] != 'h') by {
            if j < b + 15 {
                assert(line[j] == " drop # handle "@[j - b]);
            } else {
                assert(line[j] == n[j - b - 15]);
                assert(is_ascii_digit(n[j - b - 15]));
            }
        }
        if occurs_at(line, "handle"@, j) {
            assert(line.subrange(j, j + 6)[0] == "handle"@[0]);
        }
    }
    lemma_last_occurrence(line, "handle"@, line.len() - 6, p);
    let rest = line.subrange(p + 6, line.len() as int);
    assert(after_last(line, "handle"@) == rest);
    assert(rest =~= seq![' '] + n) by {
        assert forall|i: int| 0 <= i < rest.len() implies rest[i] == (seq![' '] + n)[i] by {
            if i == 0 {
                assert(rest[0] == " drop # handle "@[14]);
            } else {
                assert(rest[i] == n[i - 1]);
            }
        }
    }
    // and trimming leaves the number
    assert(trim(rest) == n) by {
        assert(all_in(rest, 0, 1, CharClass::Ws));
        assert(!in_class(CharClass::Ws, rest[1])) by {
            assert(rest[1] == n[0]);
            assert(is_ascii_digit(n[0]));
        }
        lemma_scan_unique(rest, 0, 1, CharClass::Ws);
        assert(!is_ws(rest[rest.len() - 1])) by {
            assert(rest[rest.len() - 1] == n[n.len() - 1]);
        }
        assert(rscan_ws(rest, rest.len() as int) == rest.len());
        assert(rest.subrange(1, rest.len() as int) =~= n);
    }
    assert(rule_handle(line) == n);
    reveal_with_fuel(Seq::<_>::filter, 2);
    let kept = |l: Seq<char>| contains(l, ip);
    assert(seq![line].drop_last() =~= Seq::<Seq<char>>::empty());
    assert(seq![line].filter(kept) =~= seq![line]);
    assert(seq![line].filter(kept).map_values(|l: Seq<char>| rule_handle(l)) =~= seq![n]);
}

} // verus!
