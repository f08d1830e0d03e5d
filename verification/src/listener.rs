//! Bringing up the listeners: IPv4 first, IPv6 beside it where it is
//! configured, and a single stack where the other cannot be had. The
//! decisions are made here; whoever owns the sockets carries them out and
//! reports back what happened.

use vstd::prelude::*;
use crate::text::{push_str, string_of};

verus! {

/// Which listeners are up.
#[derive(Clone, Copy, Debug, PartialEq, Eq, Structural)]
pub enum ListenMode {
    /// IPv4 and IPv6.
    DualStack,
    /// IPv4 alone.
    Ipv4Only,
    /// IPv6 alone.
    Ipv6Only,
}

/// Which of the errors met on the way is handed to the caller when the
/// bring-up fails.
#[derive(Clone, Copy, Debug, PartialEq, Eq, Structural)]
pub enum Surfaced {
    /// The error of the first attempt on IPv4.
    FirstIpv4,
    /// The error of the second attempt on IPv4, made after IPv6 could not
    /// be added.
    SecondIpv4,
}

/// Where the bring-up stands.
#[derive(Clone, Copy, Debug, PartialEq, Eq, Structural)]
pub enum BindState {
    /// The first attempt on IPv4 is under way.
    BindingIpv4,
    /// IPv4 is bound, and IPv6 is being added to the same server.
    AddingIpv6,
    /// IPv6 could not be added, and a fresh server is being bound to IPv4.
    RebindingIpv4,
    /// IPv4 failed, and IPv6 is tried alone.
    BindingIpv6,
    /// The server is ready to run.
    Ready(ListenMode),
    /// Every way has been tried in vain.
    Failed(Surfaced),
}

/// What the owner of the sockets is to do next.
#[derive(Clone, Copy, Debug, PartialEq, Eq, Structural)]
pub enum BindAction {
    /// Bind a fresh server to the IPv4 address.
    BindIpv4,
    /// Bind the same server to the IPv6 address as well.
    AddIpv6,
    /// Drop the server and bind a fresh one to the IPv4 address.
    RebindIpv4,
    /// Bind a fresh server to the IPv6 address.
    BindIpv6,
    /// Run the server.
    Serve(ListenMode),
    /// Give up with the error named.
    Abort(Surfaced),
}

/// What an attempt to bind came to.
#[derive(Clone, Copy, Debug, PartialEq, Eq, Structural)]
pub enum BindEvent {
    Bound,
    Refused,
}

/// Which stack a warning is about.
#[derive(Clone, Copy, Debug, PartialEq, Eq, Structural)]
pub enum Stack {
    Ipv4,
    Ipv6,
}

/// One step of the bring-up.
#[derive(Clone, Copy, Debug, PartialEq, Eq, Structural)]
pub struct BindStep {
    /// The state after the step.
    pub state: BindState,
    /// What to do next.
    pub action: BindAction,
    /// The stack whose failure is to be reported as a warning, if the step
    /// answers a failure.
    pub warning: Option<Stack>,
}

/// The action that belongs to a state.
pub open spec fn action_of(state: BindState) -> BindAction {
    match state {
        BindState::BindingIpv4 => BindAction::BindIpv4,
        BindState::AddingIpv6 => BindAction::AddIpv6,
        BindState::RebindingIpv4 => BindAction::RebindIpv4,
        BindState::BindingIpv6 => BindAction::BindIpv6,
        BindState::Ready(mode) => BindAction::Serve(mode),
        BindState::Failed(error) => BindAction::Abort(error),
    }
}

/// The state that follows `state` when its action ends in `event`.
/// `has_ipv6` says whether an IPv6 address is configured.
pub open spec fn next_state(state: BindState, has_ipv6: bool, event: BindEvent) -> BindState {
    match (state, event) {
        (BindState::BindingIpv4, BindEvent::Bound) => if has_ipv6 {
            BindState::AddingIpv6
        } else {
            BindState::Ready(ListenMode::Ipv4Only)
        },
        (BindState::BindingIpv4, BindEvent::Refused) => if has_ipv6 {
            BindState::BindingIpv6
        } else {
            BindState::Failed(Surfaced::FirstIpv4)
        },
        (BindState::AddingIpv6, BindEvent::Bound) => BindState::Ready(ListenMode::DualStack),
        (BindState::AddingIpv6, BindEvent::Refused) => BindState::RebindingIpv4,
        (BindState::RebindingIpv4, BindEvent::Bound) => BindState::Ready(ListenMode::Ipv4Only),
        (BindState::RebindingIpv4, BindEvent::Refused) => BindState::Failed(Surfaced::SecondIpv4),
        (BindState::BindingIpv6, BindEvent::Bound) => BindState::Ready(ListenMode::Ipv6Only),
        (BindState::BindingIpv6, BindEvent::Refused) => BindState::Failed(Surfaced::FirstIpv4),
        (BindState::Ready(mode), _) => BindState::Ready(mode),
        (BindState::Failed(error), _) => BindState::Failed(error),
    }
}

/// The stack that a refused attempt is reported for.
pub open spec fn warning_of(state: BindState, event: BindEvent) -> Option<Stack> {
    match (state, event) {
        (BindState::BindingIpv4, BindEvent::Refused) => Some(Stack::Ipv4),
        (BindState::AddingIpv6, BindEvent::Refused) => Some(Stack::Ipv6),
        (BindState::BindingIpv6, BindEvent::Refused) => Some(Stack::Ipv6),
        _ => None,
    }
}

/// Whether the bring-up has come to an end.
pub open spec fn is_final(state: BindState) -> bool {
    state is Ready || state is Failed
}

/// How many attempts may still follow from a state.
pub open spec fn attempts_left(state: BindState) -> nat {
    match state {
        BindState::BindingIpv4 => 3,
        BindState::AddingIpv6 => 2,
        BindState::RebindingIpv4 => 1,
        BindState::BindingIpv6 => 1,
        BindState::Ready(_) => 0,
        BindState::Failed(_) => 0,
    }
}

/// The state in which a bring-up ends when the attempts end as `events`
/// say, one event for each attempt made.
pub open spec fn run(state: BindState, has_ipv6: bool, events: Seq<BindEvent>) -> BindState
    decreases events.len(),
{
    if events.len() == 0 || is_final(state) {
        state
    } else {
        run(next_state(state, has_ipv6, events[0]), has_ipv6, events.skip(1))
    }
}

/// Begins the bring-up: IPv4 is tried first.
pub fn begin() -> (step: BindStep)
    ensures
        step.state == BindState::BindingIpv4,
        step.action == BindAction::BindIpv4,
        step.warning is None,
{
    BindStep { state: BindState::BindingIpv4, action: BindAction::BindIpv4, warning: None }
}

/// Decides what follows when the action of `state` has ended in `event`.
pub fn advance(state: BindState, has_ipv6: bool, event: BindEvent) -> (step: BindStep)
    ensures
        step.state == next_state(state, has_ipv6, event),
        step.action == action_of(step.state),
        step.warning == warning_of(state, event),
        !is_final(state) ==> attempts_left(step.state) < attempts_left(state),
{
    let next = match (state, event) {
        (BindState::BindingIpv4, BindEvent::Bound) => if has_ipv6 {
            BindState::AddingIpv6
        } else {
            BindState::Ready(ListenMode::Ipv4Only)
        },
        (BindState::BindingIpv4, BindEvent::Refused) => if has_ipv6 {
            BindState::BindingIpv6
        } else {
            BindState::Failed(Surfaced::FirstIpv4)
        },
        (BindState::AddingIpv6, BindEvent::Bound) => BindState::Ready(ListenMode::DualStack),
        (BindState::AddingIpv6, BindEvent::Refused) => BindState::RebindingIpv4,
        (BindState::RebindingIpv4, BindEvent::Bound) => BindState::Ready(ListenMode::Ipv4Only),
        (BindState::RebindingIpv4, BindEvent::Refused) => BindState::Failed(Surfaced::SecondIpv4),
        (BindState::BindingIpv6, BindEvent::Bound) => BindState::Ready(ListenMode::Ipv6Only),
        (BindState::BindingIpv6, BindEvent::Refused) => BindState::Failed(Surfaced::FirstIpv4),
        (BindState::Ready(mode), _) => BindState::Ready(mode),
        (BindState::Failed(error), _) => BindState::Failed(error),
    };
    let warning = match (state, event) {
        (BindState::BindingIpv4, BindEvent::Refused) => Some(Stack::Ipv4),
        (BindState::AddingIpv6, BindEvent::Refused) => Some(Stack::Ipv6),
        (BindState::BindingIpv6, BindEvent::Refused) => Some(Stack::Ipv6),
        _ => None,
    };
    BindStep { state: next, action: action_for(next), warning }
}

/// The action that belongs to a state.
pub fn action_for(state: BindState) -> (action: BindAction)
    ensures
        action == action_of(state),
{
    match state {
        BindState::BindingIpv4 => BindAction::BindIpv4,
        BindState::AddingIpv6 => BindAction::AddIpv6,
        BindState::RebindingIpv4 => BindAction::RebindIpv4,
        BindState::BindingIpv6 => BindAction::BindIpv6,
        BindState::Ready(mode) => BindAction::Serve(mode),
        BindState::Failed(error) => BindAction::Abort(error),
    }
}

/// The kinds of error that a bind can fail with, as far as the message
/// tells them apart.
#[derive(Clone, Copy, Debug, PartialEq, Eq, Structural)]
pub enum BindFailure {
    /// The address is not one of this machine.
    AddrNotAvailable,
    /// The address and port are taken.
    AddrInUse,
    /// The port needs a privilege that the process lacks.
    PermissionDenied,
    /// Anything else.
    Other,
}

/// The message for a failure; `cause` is the system's own description,
/// shown for a failure of no special kind.
pub open spec fn failure_message(kind: BindFailure, cause: Seq<char>) -> Seq<char> {
    match kind {
        BindFailure::AddrNotAvailable => "无法绑定到指定地址，请检查IP地址是否正确或端口是否被占用"@,
        BindFailure::AddrInUse => "端口已被占用"@,
        BindFailure::PermissionDenied => "权限不足，请检查端口号是否小于1024或是否有管理员权限"@,
        BindFailure::Other => "启动失败: "@ + cause,
    }
}

/// Renders a failure to bind for the operator.
pub fn format_error(kind: BindFailure, cause: &str) -> (message: String)
    ensures
        message@ == failure_message(kind, cause@),
{
    match kind {
        BindFailure::AddrNotAvailable => "无法绑定到指定地址，请检查IP地址是否正确或端口是否被占用".to_owned(),
        BindFailure::AddrInUse => "端口已被占用".to_owned(),
        BindFailure::PermissionDenied => "权限不足，请检查端口号是否小于1024或是否有管理员权限".to_owned(),
        BindFailure::Other => {
            let mut out: Vec<char> = Vec::new();
            push_str(&mut out, "启动失败: ");
            push_str(&mut out, cause);
            string_of(out.as_slice())
        },
    }
}

/// The message shown when the server is ready.
pub fn ready_message(mode: ListenMode, has_ipv6: bool) -> (message: &'static str)
    ensures
        message@ == match mode {
            ListenMode::DualStack => "服务器启动成功"@,
            ListenMode::Ipv4Only => if has_ipv6 {
                "服务器启动成功（仅 IPv4）"@
            } else {
                "服务器启动成功"@
            },
            ListenMode::Ipv6Only => "服务器启动成功（仅 IPv6）"@,
        },
{
    match mode {
        ListenMode::DualStack => "服务器启动成功",
        ListenMode::Ipv4Only => if has_ipv6 {
            "服务器启动成功（仅 IPv4）"
        } else {
            "服务器启动成功"
        },
        ListenMode::Ipv6Only => "服务器启动成功（仅 IPv6）",
    }
}

/// Three attempts at most bring every bring-up to an end, and where it
/// ends is this: both stacks where both could be bound; IPv4 alone where
/// no IPv6 is configured or it could not be added and IPv4 could be bound
/// afresh; IPv6 alone where IPv4 was refused and IPv6 could be bound; and
/// failure otherwise, with the first error of IPv4 unless it was the
/// second attempt on IPv4 that failed.
pub proof fn lemma_bring_up(has_ipv6: bool, first: BindEvent, second: BindEvent, third: BindEvent)
    ensures
        is_final(run(BindState::BindingIpv4, has_ipv6, seq![first, second, third])),
        run(BindState::BindingIpv4, has_ipv6, seq![first, second, third]) == (if !has_ipv6 {
            if first == BindEvent::Bound {
                BindState::Ready(ListenMode::Ipv4Only)
            } else {
                BindState::Failed(Surfaced::FirstIpv4)
            }
        } else if first == BindEvent::Bound {
            if second == BindEvent::Bound {
                BindState::Ready(ListenMode::DualStack)
            } else if third == BindEvent::Bound {
                BindState::Ready(ListenMode::Ipv4Only)
            } else {
                BindState::Failed(Surfaced::SecondIpv4)
            }
        } else if second == BindEvent::Bound {
            BindState::Ready(ListenMode::Ipv6Only)
        } else {
            BindState::Failed(Surfaced::FirstIpv4)
        }),
{
    let events = seq![first, second, third];
    let s1 = next_state(BindState::BindingIpv4, has_ipv6, first);
    let s2 = next_state(s1, has_ipv6, second);
    let s3 = next_state(s2, has_ipv6, third);
    assert(events.skip(1) =~= seq![second, third]);
    assert(events.skip(1).skip(1) =~= seq![third]);
    assert(events.skip(1).skip(1).skip(1) =~= Seq::<BindEvent>::empty());
    reveal_with_fuel(run, 5);
    assert(run(BindState::BindingIpv4, has_ipv6, events) == run(s1, has_ipv6, seq![second, third]));
    if !is_final(s1) {
        assert(run(s1, has_ipv6, seq![second, third]) == run(s2, has_ipv6, seq![third]));
        if !is_final(s2) {
            assert(run(s2, has_ipv6, seq![third]) == run(s3, has_ipv6, Seq::<BindEvent>::empty()));
        }
    }
}

/// Every step from a state that is not final leaves fewer attempts, so
/// the bring-up cannot go on for ever.
pub proof fn lemma_attempts_decrease(state: BindState, has_ipv6: bool, event: BindEvent)
    requires
        !is_final(state),
    ensures
        attempts_left(next_state(state, has_ipv6, event)) < attempts_left(state),
        attempts_left(state) <= 3,
{
}

/// The three special kinds of failure have messages of their own, which
/// do not depend on the cause.
pub proof fn lemma_messages_differ(cause: Seq<char>)
    ensures
        failure_message(BindFailure::AddrNotAvailable, cause) != failure_message(
            BindFailure::AddrInUse,
            cause,
        ),
        failure_message(BindFailure::AddrNotAvailable, cause) != failure_message(
            BindFailure::PermissionDenied,
            cause,
        ),
        failure_message(BindFailure::AddrInUse, cause) != failure_message(
            BindFailure::PermissionDenied,
            cause,
        ),
{
    reveal_strlit("无法绑定到指定地址，请检查IP地址是否正确或端口是否被占用");
    reveal_strlit("端口已被占用");
    reveal_strlit("权限不足，请检查端口号是否小于1024或是否有管理员权限");
    let a = failure_message(BindFailure::AddrNotAvailable, cause);
    let b = failure_message(BindFailure::AddrInUse, cause);
    let c = failure_message(BindFailure::PermissionDenied, cause);
    assert(a[0] == '无' && b[0] == '端' && c[0] == '权');
}

} // verus!
