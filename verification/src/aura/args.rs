//! The arguments of the daemon.

use vstd::prelude::*;
use vstd::string::*;

use crate::text::{number_value, parse_number, same};

verus! {

broadcast use vstd::string::group_string_axioms;

/// What the daemon is started with.
#[derive(Debug)]
pub struct Args {
    /// Where state is kept; nothing is the usual place.
    pub state_dir: Option<String>,
    /// Where to listen; nothing is the usual address.
    pub bind: Option<String>,
    /// Where to listen for HTTP; nothing is nowhere.
    pub http_bind: Option<String>,
    pub max_instances: usize,
    pub max_sessions: usize,
}

pub struct ArgsView {
    pub state_dir: Option<Seq<char>>,
    pub bind: Option<Seq<char>>,
    pub http_bind: Option<Seq<char>>,
    pub max_instances: usize,
    pub max_sessions: usize,
}

impl DeepView for Args {
    type V = ArgsView;

    open spec fn deep_view(&self) -> ArgsView {
        ArgsView {
            state_dir: self.state_dir.deep_view(),
            bind: self.bind.deep_view(),
            http_bind: self.http_bind.deep_view(),
            max_instances: self.max_instances,
            max_sessions: self.max_sessions,
        }
    }
}

/// What arguments ask for.
#[derive(Debug)]
pub enum Command {
    Run(Args),
    Help,
    Unknown(String),
}

pub enum CommandView {
    Run(ArgsView),
    Help,
    Unknown(Seq<char>),
}

impl DeepView for Command {
    type V = CommandView;

    open spec fn deep_view(&self) -> CommandView {
        match *self {
            Command::Run(a) => CommandView::Run(a.deep_view()),
            Command::Help => CommandView::Help,
            Command::Unknown(s) => CommandView::Unknown(s@),
        }
    }
}

/// The address for HTTP where none is given.
pub const DEFAULT_HTTP_BIND: &'static str = "127.0.0.1:7101";

/// The argument at a place.
pub open spec fn argument(args: Seq<Seq<char>>, i: int) -> Option<Seq<char>> {
    if 0 <= i < args.len() {
        Some(args[i])
    } else {
        None
    }
}

/// The address at a place, where there is one.
pub open spec fn address(args: Seq<Seq<char>>, is_address: Seq<bool>, i: int) -> Option<
    Seq<char>,
> {
    if 0 <= i < args.len() && is_address[i] {
        Some(args[i])
    } else {
        None
    }
}

/// The number at a place, or the one there was.
pub open spec fn number_or(args: Seq<Seq<char>>, i: int, before: usize) -> usize {
    match argument(args, i) {
        Some(s) => match number_value(s, usize::MAX as nat) {
            Some(n) => n as usize,
            None => before,
        },
        None => before,
    }
}

/// What the arguments from a place on ask for.
pub open spec fn scan(args: Seq<Seq<char>>, is_address: Seq<bool>, i: int, a: ArgsView) ->
    CommandView
    decreases args.len() + 2 - i,
{
    if i >= args.len() {
        CommandView::Run(a)
    } else if args[i] == "--state-dir"@ {
        scan(args, is_address, i + 2, ArgsView { state_dir: argument(args, i + 1), ..a })
    } else if args[i] == "--bind"@ {
        scan(args, is_address, i + 2, ArgsView { bind: address(args, is_address, i + 1), ..a })
    } else if args[i] == "--http-bind"@ {
        match address(args, is_address, i + 1) {
            Some(s) => scan(args, is_address, i + 2, ArgsView { http_bind: Some(s), ..a }),
            None => scan(
                args,
                is_address,
                i + 1,
                ArgsView { http_bind: Some("127.0.0.1:7101"@), ..a },
            ),
        }
    } else if args[i] == "--max-instances"@ {
        scan(
            args,
            is_address,
            i + 2,
            ArgsView { max_instances: number_or(args, i + 1, a.max_instances), ..a },
        )
    } else if args[i] == "--max-sessions"@ {
        scan(
            args,
            is_address,
            i + 2,
            ArgsView { max_sessions: number_or(args, i + 1, a.max_sessions), ..a },
        )
    } else if args[i] == "--help"@ || args[i] == "-h"@ {
        CommandView::Help
    } else {
        CommandView::Unknown(args[i])
    }
}

/// What is asked for where no argument is given.
pub open spec fn usual_args() -> ArgsView {
    ArgsView { state_dir: None, bind: None, http_bind: None, max_instances: 64, max_sessions: 100 }
}

fn number_at(args: &Vec<String>, i: usize, before: usize) -> (r: usize)
    ensures
        r == number_or(args.deep_view(), i as int, before),
{
    if i < args.len() {
        match parse_number(args[i].as_str()) {
            Some(n) => if n <= usize::MAX as u64 {
                n as usize
            } else {
                before
            },
            None => before,
        }
    } else {
        before
    }
}

/// What arguments ask for. Of every argument it is known whether it is an
/// address.
pub fn parse_args(args: &Vec<String>, is_address: &Vec<bool>) -> (r: Command)
    requires
        is_address@.len() == args@.len(),
        args@.len() <= usize::MAX - 2,
    ensures
        r.deep_view() == scan(args.deep_view(), is_address@, 0, usual_args()),
{
    let ghost all = args.deep_view();
    let ghost known = is_address@;
    let mut a = Args {
        state_dir: None,
        bind: None,
        http_bind: None,
        max_instances: 64,
        max_sessions: 100,
    };
    let mut i: usize = 0;
    while i < args.len()
        invariant
            all == args.deep_view(),
            known == is_address@,
            known.len() == all.len(),
            all.len() <= usize::MAX - 2,
            i <= all.len() + 1,
            scan(all, known, 0, usual_args()) == scan(all, known, i as int, a.deep_view()),
        decreases all.len() + 2 - i,
    {
        let arg = args[i].as_str();
        if same(arg, "--state-dir") {
            a.state_dir = if i + 1 < args.len() {
                Some(args[i + 1].clone())
            } else {
                None
            };
            i = i + 2;
        } else if same(arg, "--bind") {
            a.bind = if i + 1 < args.len() && is_address[i + 1] {
                Some(args[i + 1].clone())
            } else {
                None
            };
            i = i + 2;
        } else if same(arg, "--http-bind") {
            if i + 1 < args.len() && is_address[i + 1] {
                a.http_bind = Some(args[i + 1].clone());
                i = i + 2;
            } else {
                a.http_bind = Some("127.0.0.1:7101".to_owned());
                i = i + 1;
            }
        } else if same(arg, "--max-instances") {
            a.max_instances = number_at(args, i + 1, a.max_instances);
            i = i + 2;
        } else if same(arg, "--max-sessions") {
            a.max_sessions = number_at(args, i + 1, a.max_sessions);
            i = i + 2;
        } else if same(arg, "--help") || same(arg, "-h") {
            return Command::Help;
        } else {
            return Command::Unknown(arg.to_owned());
        }
    }
    Command::Run(a)
}

} // verus!
