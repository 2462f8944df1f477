//! The command router and the help assembly: looking a trigger up in the
//! store, merging built-in and configured commands into the help listing
//! (admin-only entries hidden from non-owners, sorted by trigger), and the
//! text each help reply shows.

use vstd::prelude::*;

use crate::store::{CommandData, CommandDataView, ConfigData, admin_banner, placeholder_help};
use crate::color::Color;
use crate::document::CommandResponse;

verus! {

/// The first command whose trigger is exactly `t`.
pub open spec fn find_trigger(cs: Seq<CommandDataView>, t: Seq<char>) -> Option<CommandDataView>
    decreases cs.len(),
{
    if cs.len() == 0 {
        None
    } else if cs[0].trigger == t {
        Some(cs[0])
    } else {
        find_trigger(cs.drop_first(), t)
    }
}

/// Look an inbound trigger up among the store's commands: the first exact,
/// case-sensitive match, or nothing.
pub fn route<'a>(store: &'a ConfigData, trigger: &str) -> (r: Option<&'a CommandData>)
    ensures
        match find_trigger(store@.commands, trigger@) {
            Some(c) => r matches Some(rc) && rc@ == c,
            None => r is None,
        },
{
    let cmds = store.get_commands();
    let ghost full = cmds.deep_view();
    proof {
        assert(full.subrange(0, full.len() as int) =~= full);
    }
    let mut i: usize = 0;
    while i < cmds.len()
        invariant
            full == cmds.deep_view(),
            full == store@.commands,
            i <= full.len(),
            find_trigger(full, trigger@) == find_trigger(
                full.subrange(i as int, full.len() as int),
                trigger@,
            ),
        decreases full.len() - i,
    {
        let ghost tail = full.subrange(i as int, full.len() as int);
        proof {
            assert(tail[0] == full[i as int]);
            assert(tail.drop_first() =~= full.subrange(i + 1, full.len() as int));
        }
        if crate::text::str_eq(cmds[i].get_trigger(), trigger) {
            return Some(&cmds[i]);
        }
        i += 1;
    }
    proof {
        assert(full.subrange(full.len() as int, full.len() as int) =~= Seq::<
            CommandDataView,
        >::empty());
    }
    None
}

/// Strict lexicographic order on trigger text, by character.
pub open spec fn lex_lt(a: Seq<char>, b: Seq<char>) -> bool
    decreases a.len(),
{
    if b.len() == 0 {
        false
    } else if a.len() == 0 {
        true
    } else if a[0] < b[0] {
        true
    } else if b[0] < a[0] {
        false
    } else {
        lex_lt(a.drop_first(), b.drop_first())
    }
}

/// Character-wise lexicographic comparison of two strings.
pub fn str_lt(a: &str, b: &str) -> (r: bool)
    ensures
        r == lex_lt(a@, b@),
{
    let an = a.unicode_len();
    let bn = b.unicode_len();
    let mut i: usize = 0;
    proof {
        assert(a@.subrange(0, an as int) =~= a@);
        assert(b@.subrange(0, bn as int) =~= b@);
    }
    while i < an && i < bn
        invariant
            an == a@.len() && bn == b@.len(),
            i <= an && i <= bn,
            lex_lt(a@, b@) == lex_lt(
                a@.subrange(i as int, an as int),
                b@.subrange(i as int, bn as int),
            ),
        decreases an - i,
    {
        let ghost at = a@.subrange(i as int, an as int);
        let ghost bt = b@.subrange(i as int, bn as int);
        proof {
            assert(at[0] == a@[i as int]);
            assert(bt[0] == b@[i as int]);
            assert(at.drop_first() =~= a@.subrange(i + 1, an as int));
            assert(bt.drop_first() =~= b@.subrange(i + 1, bn as int));
        }
        let ca = a.get_char(i);
        let cb = b.get_char(i);
        if ca < cb {
            return true;
        }
        if cb < ca {
            return false;
        }
        i += 1;
    }
    proof {
        if i >= an {
            assert(a@.subrange(i as int, an as int) =~= Seq::<char>::empty());
        }
        if i >= bn {
            assert(b@.subrange(i as int, bn as int) =~= Seq::<char>::empty());
        }
    }
    an < bn
}

/// The commands shown to a reader: admin-only entries only to the owner.
pub open spec fn visible_filter(cs: Seq<CommandDataView>, is_owner: bool) -> Seq<CommandDataView>
    decreases cs.len(),
{
    if cs.len() == 0 {
        cs
    } else {
        let rest = visible_filter(cs.drop_last(), is_owner);
        if cs.last().admin && !is_owner {
            rest
        } else {
            rest + seq![cs.last()]
        }
    }
}

/// `c` inserted into `s` before the first entry whose trigger is strictly
/// greater — after any entry with an equal trigger, so sorting stays stable.
pub open spec fn insert_sorted(c: CommandDataView, s: Seq<CommandDataView>) -> Seq<CommandDataView>
    decreases s.len(),
{
    if s.len() == 0 {
        seq![c]
    } else if lex_lt(c.trigger, s[0].trigger) {
        seq![c] + s
    } else {
        seq![s[0]] + insert_sorted(c, s.drop_first())
    }
}

/// Stable insertion sort by trigger.
pub open spec fn sort_cmds(s: Seq<CommandDataView>) -> Seq<CommandDataView>
    decreases s.len(),
{
    if s.len() == 0 {
        s
    } else {
        insert_sorted(s.last(), sort_cmds(s.drop_last()))
    }
}

proof fn lemma_insert_sorted_at(c: CommandDataView, s: Seq<CommandDataView>, j: int)
    requires
        0 <= j <= s.len(),
        forall|k: int| 0 <= k < j ==> !lex_lt(c.trigger, #[trigger] s[k].trigger),
        j < s.len() ==> lex_lt(c.trigger, s[j].trigger),
    ensures
        insert_sorted(c, s) == s.insert(j, c),
    decreases s.len(),
{
    if s.len() == 0 {
        assert(insert_sorted(c, s) =~= s.insert(0, c));
    } else if j == 0 {
        assert(lex_lt(c.trigger, s[0].trigger));
        assert(seq![c] + s =~= s.insert(0, c));
    } else {
        assert(!lex_lt(c.trigger, s[0].trigger));
        assert forall|k: int| 0 <= k < j - 1 implies !lex_lt(
            c.trigger,
            #[trigger] s.drop_first()[k].trigger,
        ) by {
            assert(s.drop_first()[k] == s[k + 1]);
        }
        assert(j - 1 < s.drop_first().len() ==> lex_lt(c.trigger, s.drop_first()[j - 1].trigger));
        lemma_insert_sorted_at(c, s.drop_first(), j - 1);
        assert(seq![s[0]] + s.drop_first().insert(j - 1, c) =~= s.insert(j, c));
    }
}

fn find_insert_pos(sorted: &Vec<CommandData>, c: &CommandData) -> (j: usize)
    ensures
        j <= sorted@.len(),
        forall|k: int|
            0 <= k < j ==> !lex_lt(c@.trigger, #[trigger] sorted.deep_view()[k].trigger),
        j < sorted@.len() ==> lex_lt(c@.trigger, sorted.deep_view()[j as int].trigger),
{
    let mut j: usize = 0;
    while j < sorted.len()
        invariant
            j <= sorted@.len(),
            forall|k: int|
                0 <= k < j ==> !lex_lt(c@.trigger, #[trigger] sorted.deep_view()[k].trigger),
        decreases sorted@.len() - j,
    {
        if str_lt(c.get_trigger(), sorted[j].get_trigger()) {
            return j;
        }
        j += 1;
    }
    j
}

/// Merge the built-in commands and the store's commands into the help list:
/// admin-only entries are dropped unless the reader is the owner, and the
/// result is sorted by trigger.
pub fn visible_commands(builtins: &Vec<CommandData>, store: &ConfigData, is_owner: bool) -> (r:
    Vec<CommandData>)
    ensures
        r.deep_view() == sort_cmds(
            visible_filter(builtins.deep_view(), is_owner) + visible_filter(
                store@.commands,
                is_owner,
            ),
        ),
{
    let mut merged: Vec<CommandData> = Vec::new();
    let ghost bs = builtins.deep_view();
    let mut i: usize = 0;
    while i < builtins.len()
        invariant
            bs == builtins.deep_view(),
            i <= bs.len(),
            merged.deep_view() == visible_filter(bs.subrange(0, i as int), is_owner),
        decreases bs.len() - i,
    {
        let ghost prefix = bs.subrange(0, i as int);
        let ghost next_prefix = bs.subrange(0, i + 1 as int);
        proof {
            assert(next_prefix.drop_last() =~= prefix);
            assert(next_prefix.last() == bs[i as int]);
        }
        if !(builtins[i].restricted() && !is_owner) {
            merged.push(builtins[i].clone());
            assert(merged.deep_view() =~= visible_filter(prefix, is_owner) + seq![bs[i as int]]);
        }
        assert(merged.deep_view() =~= visible_filter(next_prefix, is_owner));
        i += 1;
    }
    proof {
        assert(bs.subrange(0, bs.len() as int) =~= bs);
    }
    let cmds = store.get_commands();
    let ghost cs = cmds.deep_view();
    let mut i2: usize = 0;
    while i2 < cmds.len()
        invariant
            bs == builtins.deep_view(),
            cs == cmds.deep_view(),
            cs == store@.commands,
            i2 <= cs.len(),
            merged.deep_view() == visible_filter(bs, is_owner) + visible_filter(
                cs.subrange(0, i2 as int),
                is_owner,
            ),
        decreases cs.len() - i2,
    {
        let ghost prefix = cs.subrange(0, i2 as int);
        let ghost next_prefix = cs.subrange(0, i2 + 1 as int);
        proof {
            assert(next_prefix.drop_last() =~= prefix);
            assert(next_prefix.last() == cs[i2 as int]);
        }
        if !(cmds[i2].restricted() && !is_owner) {
            merged.push(cmds[i2].clone());
            assert(merged.deep_view() =~= visible_filter(bs, is_owner) + visible_filter(
                prefix,
                is_owner,
            ) + seq![cs[i2 as int]]);
        }
        assert(merged.deep_view() =~= visible_filter(bs, is_owner) + visible_filter(
            next_prefix,
            is_owner,
        ));
        i2 += 1;
    }
    proof {
        assert(cs.subrange(0, cs.len() as int) =~= cs);
    }

    let ghost all = merged.deep_view();
    let mut sorted: Vec<CommandData> = Vec::new();
    let mut k: usize = 0;
    while k < merged.len()
        invariant
            all == merged.deep_view(),
            k <= all.len(),
            sorted.deep_view() == sort_cmds(all.subrange(0, k as int)),
        decreases all.len() - k,
    {
        let ghost prefix = all.subrange(0, k as int);
        let ghost next_prefix = all.subrange(0, k + 1 as int);
        proof {
            assert(next_prefix.drop_last() =~= prefix);
            assert(next_prefix.last() == all[k as int]);
        }
        let c = merged[k].clone();
        let j = find_insert_pos(&sorted, &c);
        let ghost before = sorted.deep_view();
        sorted.insert(j, c);
        proof {
            lemma_insert_sorted_at(all[k as int], before, j as int);
            assert(sorted.deep_view() =~= before.insert(j as int, all[k as int]));
            assert(sorted.deep_view() =~= sort_cmds(next_prefix));
        }
        k += 1;
    }
    proof {
        assert(all.subrange(0, all.len() as int) =~= all);
    }
    sorted
}

/// Sorted by trigger: no later entry is strictly below an earlier one.
pub open spec fn sorted_by_trigger(s: Seq<CommandDataView>) -> bool {
    forall|i: int, j: int|
        0 <= i < j < s.len() ==> !lex_lt(#[trigger] s[j].trigger, #[trigger] s[i].trigger)
}

proof fn lemma_lex_irrefl(a: Seq<char>)
    ensures
        !lex_lt(a, a),
    decreases a.len(),
{
    if a.len() > 0 {
        lemma_lex_irrefl(a.drop_first());
    }
}

proof fn lemma_lex_trans(a: Seq<char>, b: Seq<char>, c: Seq<char>)
    requires
        lex_lt(a, b),
        lex_lt(b, c),
    ensures
        lex_lt(a, c),
    decreases a.len(),
{
    if a.len() == 0 {
    } else {
        if a[0] == b[0] && b[0] == c[0] {
            lemma_lex_trans(a.drop_first(), b.drop_first(), c.drop_first());
        }
    }
}

/// Where `insert_sorted` puts the new entry.
pub open spec fn insert_pos(c: CommandDataView, s: Seq<CommandDataView>) -> int
    decreases s.len(),
{
    if s.len() == 0 {
        0
    } else if lex_lt(c.trigger, s[0].trigger) {
        0
    } else {
        1 + insert_pos(c, s.drop_first())
    }
}

proof fn lemma_insert_pos(c: CommandDataView, s: Seq<CommandDataView>)
    ensures
        0 <= insert_pos(c, s) <= s.len(),
        forall|k: int| 0 <= k < insert_pos(c, s) ==> !lex_lt(c.trigger, #[trigger] s[k].trigger),
        insert_pos(c, s) < s.len() ==> lex_lt(c.trigger, s[insert_pos(c, s)].trigger),
    decreases s.len(),
{
    if s.len() > 0 && !lex_lt(c.trigger, s[0].trigger) {
        lemma_insert_pos(c, s.drop_first());
        let j = insert_pos(c, s);
        assert forall|k: int| 0 <= k < j implies !lex_lt(c.trigger, #[trigger] s[k].trigger) by {
            if k > 0 {
                assert(s.drop_first()[k - 1] == s[k]);
            }
        }
        if j < s.len() {
            assert(s.drop_first()[j - 1] == s[j]);
        }
    }
}

proof fn lemma_insert_sorted_keeps_order(c: CommandDataView, s: Seq<CommandDataView>)
    requires
        sorted_by_trigger(s),
    ensures
        sorted_by_trigger(insert_sorted(c, s)),
{
    let j = insert_pos(c, s);
    lemma_insert_pos(c, s);
    lemma_insert_sorted_at(c, s, j);
    let r = s.insert(j, c);
    assert(insert_sorted(c, s) == r);
    assert forall|x: int, y: int|
        0 <= x < y < r.len() implies !lex_lt(#[trigger] r[y].trigger, #[trigger] r[x].trigger) by {
        let rx = r[x];
        let ry = r[y];
        if x < j && y < j {
            assert(rx == s[x] && ry == s[y]);
        } else if x < j && y == j {
            assert(rx == s[x] && ry == c);
            assert(!lex_lt(c.trigger, s[x].trigger));
        } else if x < j && y > j {
            assert(rx == s[x] && ry == s[y - 1]);
        } else if x == j && y > j {
            assert(rx == c && ry == s[y - 1]);
            if lex_lt(ry.trigger, c.trigger) {
                if j < s.len() {
                    if y - 1 == j {
                        lemma_lex_trans(ry.trigger, c.trigger, s[j].trigger);
                        lemma_lex_irrefl(ry.trigger);
                    } else {
                        lemma_lex_trans(s[y - 1].trigger, c.trigger, s[j].trigger);
                    }
                }
            }
        } else {
            assert(rx == s[x - 1] && ry == s[y - 1]);
        }
    }
}

proof fn lemma_insert_sorted_multiset(c: CommandDataView, s: Seq<CommandDataView>)
    ensures
        insert_sorted(c, s).to_multiset() == s.to_multiset().insert(c),
{
    let j = insert_pos(c, s);
    lemma_insert_pos(c, s);
    lemma_insert_sorted_at(c, s, j);
    vstd::seq_lib::to_multiset_insert(s, j, c);
}

/// The sorted help list holds exactly the entries it was given, ordered by
/// trigger.
pub proof fn lemma_sort_cmds_order(s: Seq<CommandDataView>)
    ensures
        sorted_by_trigger(sort_cmds(s)),
        sort_cmds(s).to_multiset() == s.to_multiset(),
    decreases s.len(),
{
    if s.len() == 0 {
    } else {
        lemma_sort_cmds_order(s.drop_last());
        lemma_insert_sorted_keeps_order(s.last(), sort_cmds(s.drop_last()));
        lemma_insert_sorted_multiset(s.last(), sort_cmds(s.drop_last()));
        vstd::seq_lib::to_multiset_build(s.drop_last(), s.last());
        assert(s.drop_last().push(s.last()) =~= s);
    }
}

/// The help listing body: each trigger on its own line, backquoted.
pub open spec fn flattened(cs: Seq<CommandDataView>) -> Seq<char>
    decreases cs.len(),
{
    if cs.len() == 0 {
        Seq::empty()
    } else {
        flattened(cs.drop_last()) + "`"@ + cs.last().trigger + "`\n"@
    }
}

/// Render the help listing body for the given commands.
pub fn flatten_cmds(cmds: &Vec<CommandData>) -> (r: String)
    ensures
        r@ == flattened(cmds.deep_view()),
{
    let ghost cs = cmds.deep_view();
    let mut out = String::new();
    let mut i: usize = 0;
    while i < cmds.len()
        invariant
            cs == cmds.deep_view(),
            i <= cs.len(),
            out@ == flattened(cs.subrange(0, i as int)),
        decreases cs.len() - i,
    {
        let ghost prefix = cs.subrange(0, i as int);
        let ghost next_prefix = cs.subrange(0, i + 1 as int);
        proof {
            assert(next_prefix.drop_last() =~= prefix);
            assert(next_prefix.last() == cs[i as int]);
        }
        out.append("`");
        out.append(cmds[i].get_trigger());
        out.append("`\n");
        i += 1;
    }
    proof {
        assert(cs.subrange(0, cs.len() as int) =~= cs);
    }
    out
}

/// What the help command replies with.
#[derive(Clone, Copy, Debug, PartialEq, Eq, Structural)]
pub enum HelpReply {
    /// No argument: the full listing, under the global help message.
    Listing,
    /// An argument that matches no visible command: no reply at all.
    Silent,
    /// Help for the command at this index, sent to the channel.
    Detail(usize),
    /// Help for the admin-only command at this index, sent by direct message.
    AdminDetail(usize),
}

/// Decide the help reply for an optional argument against the (already
/// merged and sorted) command list.
pub fn choose_help(commands: &Vec<CommandData>, arg: Option<&str>) -> (r: HelpReply)
    ensures
        match arg {
            None => r == HelpReply::Listing,
            Some(t) => match find_trigger(commands.deep_view(), t@) {
                None => r == HelpReply::Silent,
                Some(c) => if c.admin {
                    r matches HelpReply::AdminDetail(i) && i < commands@.len()
                        && commands.deep_view()[i as int] == c
                } else {
                    r matches HelpReply::Detail(i) && i < commands@.len()
                        && commands.deep_view()[i as int] == c
                },
            },
        },
{
    let t = match arg {
        Some(t) => t,
        None => {
            return HelpReply::Listing;
        },
    };
    let ghost full = commands.deep_view();
    proof {
        assert(full.subrange(0, full.len() as int) =~= full);
    }
    let mut i: usize = 0;
    while i < commands.len()
        invariant
            arg == Some(t),
            full == commands.deep_view(),
            i <= full.len(),
            find_trigger(full, t@) == find_trigger(
                full.subrange(i as int, full.len() as int),
                t@,
            ),
        decreases full.len() - i,
    {
        let ghost tail = full.subrange(i as int, full.len() as int);
        proof {
            assert(tail[0] == full[i as int]);
            assert(tail.drop_first() =~= full.subrange(i + 1, full.len() as int));
        }
        if crate::text::str_eq(commands[i].get_trigger(), t) {
            assert(find_trigger(tail, t@) == Some(full[i as int]));
            if commands[i].restricted() {
                return HelpReply::AdminDetail(i);
            } else {
                return HelpReply::Detail(i);
            }
        }
        i += 1;
    }
    proof {
        assert(full.subrange(full.len() as int, full.len() as int) =~= Seq::<
            CommandDataView,
        >::empty());
    }
    HelpReply::Silent
}

/// The help text a built-in command advertises, assembled from its
/// framework-side options.
pub open spec fn builtin_help(
    owners_only: bool,
    help_available: bool,
    desc: Option<Seq<char>>,
    usage: Option<Seq<char>>,
    examples: Seq<Seq<char>>,
) -> Seq<char> {
    let banner = if owners_only {
        admin_banner()
    } else {
        Seq::empty()
    };
    if help_available {
        banner + (match desc {
            Some(d) => d,
            None => Seq::empty(),
        }) + "\n"@ + (match usage {
            Some(u) => u,
            None => placeholder_help(),
        }) + "\n"@ + crate::text::joined(examples, "\n"@)
    } else {
        banner
    }
}

/// The resolved entry a built-in command contributes to the help list.
pub open spec fn builtin_command_view(
    owners_only: bool,
    help_available: bool,
    desc: Option<Seq<char>>,
    usage: Option<Seq<char>>,
    examples: Seq<Seq<char>>,
    name: Seq<char>,
) -> CommandDataView {
    CommandDataView {
        admin: owners_only,
        color: Color::BlitzBlue,
        help: builtin_help(owners_only, help_available, desc, usage, examples),
        response_type: CommandResponse::Channel,
        trigger: name,
        value: Seq::empty(),
    }
}

/// Turn a built-in command's framework-side options into a help-list entry.
pub fn builtin_command_data(
    owners_only: bool,
    help_available: bool,
    desc: Option<&str>,
    usage: Option<&str>,
    examples: &Vec<String>,
    name: &str,
) -> (r: CommandData)
    ensures
        r@ == builtin_command_view(
            owners_only,
            help_available,
            desc.deep_view(),
            usage.deep_view(),
            examples.deep_view(),
            name@,
        ),
{
    let mut help = if owners_only {
        String::from_str("**admin command**\n")
    } else {
        String::new()
    };
    if help_available {
        match desc {
            Some(d) => help.append(d),
            None => (),
        }
        help.append("\n");
        match usage {
            Some(u) => help.append(u),
            None => help.append("No help available for this command"),
        }
        help.append("\n");
        let ex = crate::text::join_lines(examples);
        help.append(ex.as_str());
    }
    CommandData {
        admin: owners_only,
        color: Color::BlitzBlue,
        help,
        response_type: CommandResponse::Channel,
        trigger: String::from_str(name),
        value: String::new(),
    }
}

} // verus!
