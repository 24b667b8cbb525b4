//! What the server takes from its command line, how it tells the time, and how it keeps
//! its instances.

use vstd::prelude::*;
use vstd::string::*;

use crate::aura::args::{scan, usual_args, ArgsView, CommandView};
use crate::aura::calendar::{
    days_of_months, days_of_years, is_leap, moment, month_days, padded, year_days, Date,
};
use crate::aura::instance::{
    info_of_session, limited, more, prompt_text, prompted, replayed, said, InstanceManager,
    InstanceStatus, InstanceView, ManagerView, RecoveryView,
};
use crate::aura::protocol::{
    info_of, model_of, name_char, unavailable, valid_name, InstanceSpecView, InstanceState,
    ProviderConfigView, ServerErrorView,
};
use crate::aura::tools::{InstanceToolsView, ToolSetView};
use crate::engine::{EngineView, ProviderInfoView};
use crate::provider::deepseek::DeepSeekModel;
use crate::provider::MessageView;
use crate::session::message::{id_text, SessionId};
use crate::session::{SessionView, StateView};
use crate::table::{law_lookup_put, lookup, put, KeyView};
use crate::text::{decimal, digits_value, join, number_value, occurs, trim};
use crate::tool::registry::named;

verus! {

broadcast use vstd::string::group_string_axioms;

/// The names of options differ.
pub proof fn lemma_option_names()
    ensures
        "--state-dir"@ != "--bind"@,
        "--state-dir"@ != "--http-bind"@,
        "--state-dir"@ != "--max-instances"@,
        "--state-dir"@ != "--max-sessions"@,
        "--state-dir"@ != "--help"@,
        "--state-dir"@ != "-h"@,
        "--bind"@ != "--http-bind"@,
        "--bind"@ != "--max-instances"@,
        "--bind"@ != "--max-sessions"@,
        "--bind"@ != "--help"@,
        "--bind"@ != "-h"@,
        "--http-bind"@ != "--max-instances"@,
        "--http-bind"@ != "--max-sessions"@,
        "--http-bind"@ != "--help"@,
        "--http-bind"@ != "-h"@,
        "--max-instances"@ != "--max-sessions"@,
        "--max-instances"@ != "--help"@,
        "--max-instances"@ != "-h"@,
        "--max-sessions"@ != "--help"@,
        "--max-sessions"@ != "-h"@,
        "--help"@ != "-h"@,
{
    reveal_strlit("--state-dir");
    reveal_strlit("--bind");
    reveal_strlit("--http-bind");
    reveal_strlit("--max-instances");
    reveal_strlit("--max-sessions");
    reveal_strlit("--help");
    reveal_strlit("-h");
    assert("--state-dir"@.len() == 11);
    assert("--bind"@.len() == 6);
    assert("--http-bind"@.len() == 11);
    assert("--max-instances"@.len() == 15);
    assert("--max-sessions"@.len() == 14);
    assert("--help"@.len() == 6);
    assert("-h"@.len() == 2);
    assert("--state-dir"@[2] != "--http-bind"@[2]);
    assert("--bind"@[2] != "--help"@[2]);
}

/// An option sets what it is named for, to what follows it, and nothing else; reading
/// goes on behind it.
pub proof fn law_options(
    args: Seq<Seq<char>>,
    is_address: Seq<bool>,
    i: int,
    a: ArgsView,
    n: usize,
)
    requires
        0 <= i,
        i + 1 < args.len(),
        is_address.len() == args.len(),
    ensures
        args[i] == "--state-dir"@ ==> scan(args, is_address, i, a) == scan(
            args,
            is_address,
            i + 2,
            (ArgsView {
                state_dir: Some(args[i + 1]),
                bind: a.bind,
                http_bind: a.http_bind,
                max_instances: a.max_instances,
                max_sessions: a.max_sessions,
            }),
        ),
        args[i] == "--bind"@ && is_address[i + 1] ==> scan(args, is_address, i, a) == scan(
            args,
            is_address,
            i + 2,
            (ArgsView {
                state_dir: a.state_dir,
                bind: Some(args[i + 1]),
                http_bind: a.http_bind,
                max_instances: a.max_instances,
                max_sessions: a.max_sessions,
            }),
        ),
        args[i] == "--http-bind"@ && is_address[i + 1] ==> scan(args, is_address, i, a) == scan(
            args,
            is_address,
            i + 2,
            (ArgsView {
                state_dir: a.state_dir,
                bind: a.bind,
                http_bind: Some(args[i + 1]),
                max_instances: a.max_instances,
                max_sessions: a.max_sessions,
            }),
        ),
        args[i] == "--http-bind"@ && !is_address[i + 1] ==> scan(args, is_address, i, a) == scan(
            args,
            is_address,
            i + 1,
            (ArgsView {
                state_dir: a.state_dir,
                bind: a.bind,
                http_bind: Some("127.0.0.1:7101"@),
                max_instances: a.max_instances,
                max_sessions: a.max_sessions,
            }),
        ),
        args[i] == "--max-instances"@ && args[i + 1] == decimal(n as nat) ==> scan(
            args,
            is_address,
            i,
            a,
        ) == scan(
            args,
            is_address,
            i + 2,
            (ArgsView {
                state_dir: a.state_dir,
                bind: a.bind,
                http_bind: a.http_bind,
                max_instances: n,
                max_sessions: a.max_sessions,
            }),
        ),
        args[i] == "--max-sessions"@ && args[i + 1] == decimal(n as nat) ==> scan(
            args,
            is_address,
            i,
            a,
        ) == scan(
            args,
            is_address,
            i + 2,
            (ArgsView {
                state_dir: a.state_dir,
                bind: a.bind,
                http_bind: a.http_bind,
                max_instances: a.max_instances,
                max_sessions: n,
            }),
        ),
        args[i] == "--help"@ || args[i] == "-h"@ ==> scan(args, is_address, i, a) is Help,
        args[i] != "--state-dir"@ && args[i] != "--bind"@ && args[i] != "--http-bind"@ && args[i]
            != "--max-instances"@ && args[i] != "--max-sessions"@ && args[i] != "--help"@ && args[i]
            != "-h"@ ==> scan(args, is_address, i, a) == CommandView::Unknown(args[i]),
{
    lemma_option_names();
    crate::text_laws::law_decimal(n as nat, usize::MAX as nat);
}

/// Without options the server runs with what is usual; behind the last option with what
/// was set.
pub proof fn law_no_options(args: Seq<Seq<char>>, is_address: Seq<bool>, a: ArgsView)
    ensures
        scan(args, is_address, args.len() as int, a) == CommandView::Run(a),
        usual_args().state_dir is None,
        usual_args().bind is None,
        usual_args().http_bind is None,
        usual_args().max_instances == 64,
        usual_args().max_sessions == 100,
{
}

/// How long a month is.
pub proof fn law_months(year: int, month: int)
    ensures
        month == 1 || month == 3 || month == 5 || month == 7 || month == 8 || month == 10 || month
            == 12 ==> month_days(year, month) == 31,
        month == 4 || month == 6 || month == 9 || month == 11 ==> month_days(year, month) == 30,
        year % 400 == 0 ==> month_days(year, 2) == 29,
        year % 100 == 0 && year % 400 != 0 ==> month_days(year, 2) == 28,
        year % 4 == 0 && year % 100 != 0 ==> month_days(year, 2) == 29,
        year % 4 != 0 ==> month_days(year, 2) == 28,
{
}

/// The months of a year make the year.
proof fn lemma_year(year: int)
    ensures
        days_of_months(year, 12) + 31 == year_days(year),
{
    reveal_with_fuel(days_of_months, 13);
}

/// Days are numbered from the first of 1970 on, one after the other: the day after a day
/// is the next of its month, else the first of the next month, else the first of the
/// next year.
pub proof fn law_next_day(d: Date, e: Date)
    requires
        d.valid(),
    ensures
        d.year == 1970 && d.month == 1 && d.day == 1 ==> d.number() == 0,
        e.year == d.year && e.month == d.month && e.day == d.day + 1 ==> e.number() == d.number()
            + 1,
        d.day == month_days(d.year as int, d.month as int) && d.month < 12 && e.year == d.year
            && e.month == d.month + 1 && e.day == 1 ==> e.number() == d.number() + 1,
        d.month == 12 && d.day == 31 && e.year == d.year + 1 && e.month == 1 && e.day == 1
            ==> e.number() == d.number() + 1,
{
    lemma_year(d.year as int);
}

/// Leading zeros.
proof fn lemma_zeros(zeros: nat, s: Seq<char>)
    ensures
        digits_value(Seq::new(zeros, |i: int| '0') + s) == digits_value(s),
    decreases zeros + s.len(),
{
    let all = Seq::new(zeros, |i: int| '0') + s;
    if s.len() > 0 {
        lemma_zeros(zeros, s.drop_last());
        assert(all.drop_last() =~= Seq::new(zeros, |i: int| '0') + s.drop_last());
        assert(all.last() == s.last());
    } else if zeros > 0 {
        lemma_zeros((zeros - 1) as nat, s);
        assert(all.drop_last() =~= Seq::new((zeros - 1) as nat, |i: int| '0') + s);
        assert(all.last() == '0');
    } else {
        assert(all =~= s);
    }
}

/// A number is filled up with zeros in front, and is still that number.
pub proof fn law_padded(n: nat, width: int)
    requires
        width >= 0,
    ensures
        padded(n, width).len() >= width,
        digits_value(padded(n, width)) == Some(n),
        n < 10 ==> padded(n, 2).len() == 2,
        10 <= n < 100 ==> padded(n, 2).len() == 2,
        1000 <= n < 10000 ==> padded(n, 4).len() == 4,
{
    crate::text_laws::law_decimal(n, n);
    let d = decimal(n);
    if d.len() < width {
        lemma_zeros((width - d.len()) as nat, d);
    }
    reveal_with_fuel(decimal, 5);
}

/// The time of a day is written as hours, minutes and seconds behind the date.
pub proof fn law_moment(date: Date, seconds: int, h: nat, m: nat, s: nat)
    requires
        1000 <= date.year < 10000,
        date.month < 100,
        date.day < 100,
        h < 24,
        m < 60,
        s < 60,
        seconds == h * 3600 + m * 60 + s,
    ensures
        ({
            let t = moment(date, seconds);
            &&& t.len() == 20
            &&& digits_value(t.subrange(0, 4)) == Some(date.year as nat)
            &&& t[4] == '-'
            &&& digits_value(t.subrange(5, 7)) == Some(date.month as nat)
            &&& t[7] == '-'
            &&& digits_value(t.subrange(8, 10)) == Some(date.day as nat)
            &&& t[10] == 'T'
            &&& digits_value(t.subrange(11, 13)) == Some(h)
            &&& t[13] == ':'
            &&& digits_value(t.subrange(14, 16)) == Some(m)
            &&& t[16] == ':'
            &&& digits_value(t.subrange(17, 19)) == Some(s)
            &&& t[19] == 'Z'
        }),
{
    law_padded(date.year as nat, 4);
    law_padded(date.month as nat, 2);
    law_padded(date.day as nat, 2);
    law_padded(h, 2);
    law_padded(m, 2);
    law_padded(s, 2);
    reveal_strlit("-");
    reveal_strlit("T");
    reveal_strlit(":");
    reveal_strlit("Z");
    assert("-"@.len() == 1 && "-"@[0] == '-');
    assert("T"@.len() == 1 && "T"@[0] == 'T');
    assert(":"@.len() == 1 && ":"@[0] == ':');
    assert("Z"@.len() == 1 && "Z"@[0] == 'Z');
    assert(seconds / 3600 == h);
    assert(seconds % 3600 == m * 60 + s);
    assert((seconds % 3600) / 60 == m);
    assert(seconds % 60 == s) by {
        assert(seconds == 60 * (h * 60 + m) + s);
    }
    let t = moment(date, seconds);
    assert(t.subrange(0, 4) =~= padded(date.year as nat, 4));
    assert(t.subrange(5, 7) =~= padded(date.month as nat, 2));
    assert(t.subrange(8, 10) =~= padded(date.day as nat, 2));
    assert(t.subrange(11, 13) =~= padded(h, 2));
    assert(t.subrange(14, 16) =~= padded(m, 2));
    assert(t.subrange(17, 19) =~= padded(s, 2));
}

/// The strong model is meant where its name says so, and else the fast one; other
/// vendors are not to be had, and it is said why.
pub proof fn law_vendors(
    key: Seq<char>,
    url: Option<Seq<char>>,
    name: Seq<char>,
    model: Option<Seq<char>>,
)
    ensures
        occurs(name, "pro"@) ==> model_of(Some(name)) == DeepSeekModel::V4Pro,
        !occurs(name, "pro"@) ==> model_of(Some(name)) == DeepSeekModel::V4Flash,
        model_of(None) == DeepSeekModel::V4Flash,
        unavailable(ProviderConfigView::DeepSeek(key, url, model)) is None,
        unavailable(ProviderConfigView::XiaoMi(key, url)) == Some("xiaomi feature not enabled"@),
        unavailable(ProviderConfigView::OpenAI(key, url, name)) == Some(
            "openai provider adapter not exposed to server layer"@,
        ),
        occurs(name, "pro"@) ==> info_of(ProviderConfigView::DeepSeek(key, url, Some(name))).id
            == "deepseek/deepseek-v4-pro"@,
        model is None ==> info_of(ProviderConfigView::DeepSeek(key, url, model)).id
            == "deepseek/deepseek-v4-flash"@,
{
}

/// A name is made of letters, digits, hyphens and underscores, and has at least one.
pub proof fn law_names(name: Seq<char>, c: char)
    ensures
        !valid_name(Seq::empty()),
        valid_name(name) && ('a' <= c <= 'z' || 'A' <= c <= 'Z' || '0' <= c <= '9' || c == '-' || c
            == '_') ==> valid_name(name.push(c)),
        !('a' <= c <= 'z' || 'A' <= c <= 'Z' || '0' <= c <= '9' || c == '-' || c == '_')
            ==> !valid_name(name.push(c)),
        c == '/' || c == '.' || c == ' ' || c == '\\' ==> !valid_name(name.push(c)),
{
    let more = name.push(c);
    assert(more[name.len() as int] == c);
    if valid_name(name) && name_char(c) {
        assert forall|i: int| 0 <= i < more.len() implies name_char(#[trigger] more[i]) by {
            if i < name.len() {
                assert(more[i] == name[i]);
            }
        }
    }
    if valid_name(more) {
        assert(name_char(more[name.len() as int]));
    }
}

/// The tools of an instance: on files where a workspace is set, with its bounds, and on
/// artifacts where they are wanted.
pub proof fn law_tool_sets(t: InstanceToolsView)
    ensures
        t.fs is None && !t.artifact ==> t.sets().len() == 0,
        t.fs is None && t.artifact ==> t.sets() == seq![ToolSetView::Artifacts],
        t.fs matches Some(fs) ==> {
            &&& t.sets().len() == (if t.artifact {
                3nat
            } else {
                2
            })
            &&& t.sets()[0] == (ToolSetView::Read {
                default_limit_chars: fs.default_limit_chars,
                max_limit_chars: 20_000,
                max_file_bytes: fs.max_file_bytes,
                root: fs.root,
            })
            &&& t.sets()[1] == (ToolSetView::Write {
                max_file_bytes: fs.max_file_bytes,
                root: fs.root,
            })
            &&& t.artifact ==> t.sets()[2] is Artifacts
        },
{
    if t.fs is None && t.artifact {
        assert(t.sets() =~= seq![ToolSetView::Artifacts]);
    }
}

/// The prompt of an instance is made of its sections that say something, trimmed, with a
/// blank line between them.
pub proof fn law_instance_prompt(sections: Seq<Seq<char>>, s: Seq<char>)
    ensures
        trim(s).len() == 0 ==> prompt_text(sections.push(s)) == prompt_text(sections),
        trim(s).len() > 0 && said(sections).len() > 0 ==> prompt_text(sections.push(s))
            == prompt_text(sections) + "\n\n"@ + trim(s),
        trim(s).len() > 0 && said(sections).len() == 0 ==> prompt_text(sections.push(s)) == trim(s),
        prompt_text(Seq::empty()).len() == 0,
{
    assert(sections.push(s).drop_last() =~= sections);
    if trim(s).len() > 0 {
        crate::text_laws::law_join(said(sections), trim(s), "\n\n"@);
        if said(sections).len() == 0 {
            assert(said(sections).push(trim(s)) =~= seq![trim(s)]);
        }
    }
}

/// A new instance runs, is empty, has its prompt as the default of its sessions, and
/// knows what all instances have used.
pub proof fn law_fresh_instance(
    spec: InstanceSpecView,
    id: Seq<char>,
    p: ProviderInfoView,
    used: u64,
    now: u64,
)
    ensures
        ({
            let i = InstanceView::fresh(spec, id, p, used, now);
            &&& i.id == id
            &&& i.model == spec.model
            &&& i.status == InstanceStatus::Running
            &&& i.created_at == now
            &&& i.engine.sessions.len() == 0
            &&& i.engine.provider == p
            &&& i.engine.total == used
            &&& i.engine.config.budget == spec.engine.budget
            &&& i.engine.config.max_sessions == spec.engine.max_sessions
            &&& i.engine.config.session.max_history == spec.engine.session.max_history
            &&& prompt_text(spec.sections).len() > 0
                ==> i.engine.config.session.default_system_prompt == Some(
                prompt_text(spec.sections),
            )
            &&& prompt_text(spec.sections).len() == 0
                ==> i.engine.config.session.default_system_prompt is None
            &&& i.engine.cache is Some <==> spec.engine.cache.enabled
        }),
{
}

/// What is told of an instance.
pub proof fn law_instance_is_told(i: InstanceView)
    requires
        i.engine.sessions.len() <= usize::MAX,
    ensures
        i.info().id == i.id,
        i.info().model == i.model,
        i.status == InstanceStatus::Running ==> i.info().state == InstanceState::Running,
        i.status == InstanceStatus::Stopped ==> i.info().state == InstanceState::Stopped,
        i.info().sessions == i.engine.sessions.len(),
        i.info().max_sessions == i.engine.config.max_sessions,
        i.info().consumed_tokens == i.engine.total,
        i.engine.cache is None ==> i.info().cache_entries == 0,
        i.engine.cache matches Some(c) ==> (c.entries.len() <= usize::MAX ==> i.info().cache_entries
            == c.entries.len()),
        i.info().created_at == moment(
            crate::aura::calendar::date_of(i.created_at as int / 86_400),
            i.created_at as int % 86_400,
        ),
        i.stopped().info().state == InstanceState::Stopped,
        i.stopped().engine.total == i.engine.total,
        i.stopped().id == i.id,
{
}

/// What is told of a session.
pub proof fn law_session_is_told(key: KeyView, s: SessionView)
    requires
        s.window().len() <= usize::MAX,
    ensures
        ({
            let t = info_of_session((key, s));
            &&& t.id == id_text((SessionId { hi: key.1, lo: key.2 }))
            &&& t.messages == s.window().len()
            &&& t.consumed_tokens == s.consumed_tokens
            &&& s.state is Idle ==> t.phase == "idle"@
            &&& s.state is Thinking ==> t.phase == "thinking"@
            &&& s.state is AwaitingCalls ==> t.phase == "awaiting_calls"@
        }),
{
}

/// An instance is made where its name is good and free, there is room, and its vendor is
/// to be had; else it is said what stands against it, under a number.
pub proof fn law_instance_is_made(
    m: ManagerView,
    name: Seq<char>,
    why: Seq<char>,
    spec: InstanceSpecView,
    now: u64,
)
    ensures
        m.refusal(Err(why), spec, true) == Some((ServerErrorView { code: (-32004int) as i32, message: why })),
        m.instance(name) is Some ==> m.refusal(Ok(name), spec, true) == Some(
            (ServerErrorView {
                code: (-32004int) as i32,
                message: "instance id '"@ + name + "' already exists"@,
            }),
        ),
        m.instance(name) is None && m.instances.len() >= m.config.max_instances ==> m.refusal(
            Ok(name),
            spec,
            true,
        ) == Some(
            (ServerErrorView {
                code: (-32001int) as i32,
                message: "max instances ("@ + decimal(m.config.max_instances as nat)
                    + ") reached"@,
            }),
        ),
        m.instance(name) is None && m.instances.len() < m.config.max_instances ==> m.refusal(
            Ok(name),
            spec,
            true,
        ) is None,
        m.instance(name) is None && m.instances.len() < m.config.max_instances ==> (m.refusal(
            Ok(name),
            spec,
            false,
        ) is None <==> spec.provider is DeepSeek),
        m.created(name, spec, now).1 is None ==> (m.created(name, spec, now).0.instance(
            name,
        ) matches Some(i) && i.id == name && i.model == spec.model && i.engine.total == m.used
            && i.status == InstanceStatus::Running),
        m.created(name, spec, now).1 is Some ==> m.created(name, spec, now).0 == m,
        InstanceManager::missing(name) == (ServerErrorView {
            code: (-32000int) as i32,
            message: "instance '"@ + name + "' not found"@,
        }),
{
    if m.created(name, spec, now).1 is None {
        let i = m.made(name, spec, None, now);
        law_lookup_put(m.instances, named(name), i, named(name));
    }
}

/// A limit for all instances holds for each of them; without one each has its own.
pub proof fn law_limit_for_all(spec: InstanceSpecView, limit: u64)
    ensures
        limit > 0 ==> limited(spec, limit).engine.budget.global_limit == limit,
        limited(spec, limit).engine.budget.session_limit == spec.engine.budget.session_limit,
        limit == 0 ==> limited(spec, limit) == spec,
        limited(spec, limit).model == spec.model,
        limited(spec, limit).sections == spec.sections,
        limited(spec, limit).provider == spec.provider,
        limited(spec, limit).engine.session == spec.engine.session,
{
}

/// What all instances have used is lent to one while it works, and taken back.
pub proof fn law_budget_is_lent(m: ManagerView, i: int, j: int)
    requires
        0 <= i < m.instances.len(),
        0 <= j < m.instances.len(),
    ensures
        m.lent(i).instances[i].1.engine.total == m.used,
        m.lent(i).used == m.used,
        m.lent(i).instances[i].1.engine.sessions == m.instances[i].1.engine.sessions,
        i != j ==> m.lent(i).instances[j] == m.instances[j],
        m.collected(i).used == m.instances[i].1.engine.total,
        m.collected(i).instances == m.instances,
{
}

/// Recovery counts what it makes, and names what it cannot make and why.
pub proof fn law_recovery(
    m: ManagerView,
    specs: Seq<(Seq<char>, InstanceSpecView)>,
    name: Seq<char>,
    spec: InstanceSpecView,
    now: u64,
    r: RecoveryView,
)
    ensures
        ({
            let (before, told) = m.recovered(specs, now, r);
            let (after, tells) = m.recovered(specs.push((name, spec)), now, r);
            &&& before.created(name, spec, now).1 is None ==> after == before.created(
                name,
                spec,
                now,
            ).0 && (told.instances < usize::MAX ==> tells.instances == told.instances + 1)
                && tells.broken == told.broken && tells.sessions == told.sessions
            &&& before.created(name, spec, now).1 matches Some(e) ==> after == before
                && tells.instances == told.instances && tells.broken == told.broken.push(
                (name, e.message),
            )
        }),
        m.recovered(Seq::empty(), now, r) == (m, r),
{
    assert(specs.push((name, spec)).drop_last() =~= specs);
}

/// The histories of an instance are put back one after the other, each into its session;
/// one that has no room is named.
pub proof fn law_replay(
    i: InstanceView,
    sessions: Seq<(SessionId, Seq<MessageView>)>,
    id: SessionId,
    msgs: Seq<MessageView>,
    now: u64,
    r: RecoveryView,
)
    ensures
        ({
            let (before, told) = replayed(i, sessions, now, r);
            let (after, tells) = replayed(i, sessions.push((id, msgs)), now, r);
            &&& after.engine == before.engine.restored(id, msgs, now).0
            &&& after.id == before.id
            &&& before.engine.restored(id, msgs, now).1 matches Some(k) ==> (told.sessions + k
                <= usize::MAX ==> tells.sessions == told.sessions + k) && tells.broken
                == told.broken
            &&& before.engine.restored(id, msgs, now).1 is None ==> tells.broken
                == told.broken.push(
                (i.id + "/"@ + id_text(id), "state conflict: "@ + "max sessions reached"@),
            )
        }),
        replayed(i, Seq::empty(), now, r) == (i, r),
{
    assert(sessions.push((id, msgs)).drop_last() =~= sessions);
}

/// There is every day of every month from 1970 on, up to the twenty-eighth at least; there
/// is no month or day numbered zero, and none beyond the thirty-first of the twelfth.
pub proof fn law_days_there_are(d: Date)
    ensures
        d.year >= 1970 && d.month >= 1 && d.month <= 12 && d.day >= 1 && d.day <= 28 ==> d.valid(),
        d.valid() ==> d.year >= 1970 && d.month >= 1 && d.month <= 12 && d.day >= 1 && d.day <= 31,
        d.year >= 1970 && d.month == 12 ==> (d.valid() <==> d.day >= 1 && d.day <= 31),
        d.year >= 1970 && d.month == 4 ==> (d.valid() <==> d.day >= 1 && d.day <= 30),
{
}

} // verus!
