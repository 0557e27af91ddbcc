//! The commands as one type.
//!
//! The loop holds commands of every kind in one list. [`Command`] is any one
//! of them, [`CommandOutput`] is what any one of them brings, and a
//! [`CommandTask`] is a command together with the handle through which its
//! result is delivered.
use vstd::prelude::*;
use libp2p::Multiaddr;
use crate::command::add_peer_addrs::AddPeerAddrsCommand;
use crate::command::dial::DialCommand;
use crate::command::disconnect::DisconnectCommand;
use crate::command::get_listen_addrs::GetListenAddrsCommand;
use crate::command::handler::{fails_with, no_answer, unanswered, Observed, Start};
use crate::command::is_connected::IsConnectedCommand;
use crate::command::kad::{
    BootstrapCommand, BootstrapResult, GetClosestPeersCommand, GetClosestPeersResult,
    GetProvidersCommand, GetProvidersResult, GetRecordCommand, GetRecordResult, PutRecordCommand,
    RemoveRecordCommand, StartProvideCommand, StopProvideCommand,
};
use crate::command::req_resp::{SendRequestCommand, SendResponseCommand};
use crate::error::{Error, ErrorKind};
use crate::swarm::{SwarmEvent, SwarmReply, SwarmView};
use crate::util::QueryStatsInfo;

verus! {

/// What a command brings, whatever its kind.
#[derive(Debug, PartialEq)]
pub enum CommandOutput<Resp> {
    /// Nothing but the news that it went well.
    Done,
    /// Whether a peer is connected.
    Connected(bool),
    /// The node's addresses.
    Addrs(Vec<Multiaddr>),
    /// What joining the hash table brought.
    Bootstrapped(BootstrapResult),
    /// The record that was looked up.
    Found(GetRecordResult),
    /// How a query on the hash table went.
    Stats(QueryStatsInfo),
    /// The providers that were looked up.
    Providers(GetProvidersResult),
    /// The closest peers that were looked up.
    ClosestPeers(GetClosestPeersResult),
    /// The response of a peer.
    Response(Resp),
}

impl<Resp> CommandOutput<Resp> {
    /// The statistics of the query that brought this output, where a query
    /// on the hash table did.
    pub open spec fn stats(self) -> Option<QueryStatsInfo> {
        match self {
            CommandOutput::Bootstrapped(out) => Some(out.stats),
            CommandOutput::Found(out) => Some(out.stats),
            CommandOutput::Stats(stats) => Some(stats),
            CommandOutput::Providers(out) => Some(out.stats),
            CommandOutput::ClosestPeers(out) => Some(out.stats),
            _ => None,
        }
    }
}

/// A kind of result that has its place in [`CommandOutput`].
pub trait Output<Resp>: Sized {
    /// The result, as the output of any command.
    spec fn lifted(self) -> CommandOutput<Resp>;

    /// The result of this kind that `output` holds, if it holds one.
    spec fn lowered(output: CommandOutput<Resp>) -> Option<Self>;

    /// A result that was lifted is found again.
    proof fn lemma_lowered_lifted(self)
        ensures
            Self::lowered(self.lifted()) == Some(self),
    ;

    /// Turns the result into the output of any command.
    fn lift(self) -> (output: CommandOutput<Resp>)
        ensures
            output == self.lifted(),
    ;

    /// Reads the result of this kind out of the output of any command.
    fn lower(output: CommandOutput<Resp>) -> (value: Option<Self>)
        ensures
            value == Self::lowered(output),
    ;
}

impl<Resp> Output<Resp> for () {
    open spec fn lifted(self) -> CommandOutput<Resp> {
        CommandOutput::Done
    }

    open spec fn lowered(output: CommandOutput<Resp>) -> Option<()> {
        match output {
            CommandOutput::Done => Some(()),
            _ => None,
        }
    }

    proof fn lemma_lowered_lifted(self) {
    }

    fn lift(self) -> (output: CommandOutput<Resp>) {
        CommandOutput::Done
    }

    fn lower(output: CommandOutput<Resp>) -> (value: Option<()>) {
        match output {
            CommandOutput::Done => Some(()),
            _ => None,
        }
    }
}

impl<Resp> Output<Resp> for bool {
    open spec fn lifted(self) -> CommandOutput<Resp> {
        CommandOutput::Connected(self)
    }

    open spec fn lowered(output: CommandOutput<Resp>) -> Option<bool> {
        match output {
            CommandOutput::Connected(connected) => Some(connected),
            _ => None,
        }
    }

    proof fn lemma_lowered_lifted(self) {
    }

    fn lift(self) -> (output: CommandOutput<Resp>) {
        CommandOutput::Connected(self)
    }

    fn lower(output: CommandOutput<Resp>) -> (value: Option<bool>) {
        match output {
            CommandOutput::Connected(connected) => Some(connected),
            _ => None,
        }
    }
}

impl<Resp> Output<Resp> for Vec<Multiaddr> {
    open spec fn lifted(self) -> CommandOutput<Resp> {
        CommandOutput::Addrs(self)
    }

    open spec fn lowered(output: CommandOutput<Resp>) -> Option<Vec<Multiaddr>> {
        match output {
            CommandOutput::Addrs(addrs) => Some(addrs),
            _ => None,
        }
    }

    proof fn lemma_lowered_lifted(self) {
    }

    fn lift(self) -> (output: CommandOutput<Resp>) {
        CommandOutput::Addrs(self)
    }

    fn lower(output: CommandOutput<Resp>) -> (value: Option<Vec<Multiaddr>>) {
        match output {
            CommandOutput::Addrs(addrs) => Some(addrs),
            _ => None,
        }
    }
}

impl<Resp> Output<Resp> for BootstrapResult {
    open spec fn lifted(self) -> CommandOutput<Resp> {
        CommandOutput::Bootstrapped(self)
    }

    open spec fn lowered(output: CommandOutput<Resp>) -> Option<BootstrapResult> {
        match output {
            CommandOutput::Bootstrapped(out) => Some(out),
            _ => None,
        }
    }

    proof fn lemma_lowered_lifted(self) {
    }

    fn lift(self) -> (output: CommandOutput<Resp>) {
        CommandOutput::Bootstrapped(self)
    }

    fn lower(output: CommandOutput<Resp>) -> (value: Option<BootstrapResult>) {
        match output {
            CommandOutput::Bootstrapped(out) => Some(out),
            _ => None,
        }
    }
}

impl<Resp> Output<Resp> for GetRecordResult {
    open spec fn lifted(self) -> CommandOutput<Resp> {
        CommandOutput::Found(self)
    }

    open spec fn lowered(output: CommandOutput<Resp>) -> Option<GetRecordResult> {
        match output {
            CommandOutput::Found(out) => Some(out),
            _ => None,
        }
    }

    proof fn lemma_lowered_lifted(self) {
    }

    fn lift(self) -> (output: CommandOutput<Resp>) {
        CommandOutput::Found(self)
    }

    fn lower(output: CommandOutput<Resp>) -> (value: Option<GetRecordResult>) {
        match output {
            CommandOutput::Found(out) => Some(out),
            _ => None,
        }
    }
}

impl<Resp> Output<Resp> for QueryStatsInfo {
    open spec fn lifted(self) -> CommandOutput<Resp> {
        CommandOutput::Stats(self)
    }

    open spec fn lowered(output: CommandOutput<Resp>) -> Option<QueryStatsInfo> {
        match output {
            CommandOutput::Stats(stats) => Some(stats),
            _ => None,
        }
    }

    proof fn lemma_lowered_lifted(self) {
    }

    fn lift(self) -> (output: CommandOutput<Resp>) {
        CommandOutput::Stats(self)
    }

    fn lower(output: CommandOutput<Resp>) -> (value: Option<QueryStatsInfo>) {
        match output {
            CommandOutput::Stats(stats) => Some(stats),
            _ => None,
        }
    }
}

impl<Resp> Output<Resp> for GetProvidersResult {
    open spec fn lifted(self) -> CommandOutput<Resp> {
        CommandOutput::Providers(self)
    }

    open spec fn lowered(output: CommandOutput<Resp>) -> Option<GetProvidersResult> {
        match output {
            CommandOutput::Providers(out) => Some(out),
            _ => None,
        }
    }

    proof fn lemma_lowered_lifted(self) {
    }

    fn lift(self) -> (output: CommandOutput<Resp>) {
        CommandOutput::Providers(self)
    }

    fn lower(output: CommandOutput<Resp>) -> (value: Option<GetProvidersResult>) {
        match output {
            CommandOutput::Providers(out) => Some(out),
            _ => None,
        }
    }
}

impl<Resp> Output<Resp> for GetClosestPeersResult {
    open spec fn lifted(self) -> CommandOutput<Resp> {
        CommandOutput::ClosestPeers(self)
    }

    open spec fn lowered(output: CommandOutput<Resp>) -> Option<GetClosestPeersResult> {
        match output {
            CommandOutput::ClosestPeers(out) => Some(out),
            _ => None,
        }
    }

    proof fn lemma_lowered_lifted(self) {
    }

    fn lift(self) -> (output: CommandOutput<Resp>) {
        CommandOutput::ClosestPeers(self)
    }

    fn lower(output: CommandOutput<Resp>) -> (value: Option<GetClosestPeersResult>) {
        match output {
            CommandOutput::ClosestPeers(out) => Some(out),
            _ => None,
        }
    }
}

/// The result of one kind of command, as the result of any command.
pub open spec fn lifted_result<T: Output<Resp>, Resp>(result: Result<T, Error>) -> Result<
    CommandOutput<Resp>,
    Error,
> {
    match result {
        Ok(value) => Ok(value.lifted()),
        Err(error) => Err(error),
    }
}

/// The result of one kind that the result of any command holds, if it holds
/// one.
pub open spec fn lowered_result<T: Output<Resp>, Resp>(
    result: Result<CommandOutput<Resp>, Error>,
) -> Option<Result<T, Error>> {
    match result {
        Ok(output) => match T::lowered(output) {
            Some(value) => Some(Ok(value)),
            None => None,
        },
        Err(error) => Some(Err(error)),
    }
}

/// What the failure says when a command has brought a result of a kind that
/// is not its own.
pub open spec fn another_kind() -> Seq<char> {
    "result of another kind"@
}

/// Reads the result of one kind of command out of the result of any command.
/// A result of another kind is a failure.
pub fn typed<T: Output<Resp>, Resp>(result: Result<CommandOutput<Resp>, Error>) -> (out: Result<
    T,
    Error,
>)
    ensures
        match lowered_result::<T, Resp>(result) {
            Some(inner) => out == inner,
            None => out matches Err(failure) && failure.is(ErrorKind::Behaviour, another_kind()),
        },
{
    match result {
        Ok(output) => match T::lower(output) {
            Some(value) => Ok(value),
            None => Err(Error::Behaviour(String::from_str("result of another kind"))),
        },
        Err(failure) => Err(failure),
    }
}

/// The first turn of one kind of command, as the first turn of any command.
pub open spec fn lifted_start<T: Output<Resp>, Req, Resp, Ch>(start: Start<T, Req, Resp, Ch>) -> Start<
    CommandOutput<Resp>,
    Req,
    Resp,
    Ch,
> {
    match start {
        Start::Finished { calls, result } => Start::Finished { calls, result: lifted_result(result) },
        Start::Call { call } => Start::Call { call },
    }
}

/// What one kind of command makes of an event, as what any command makes of
/// it.
pub open spec fn lifted_observed<T: Output<Resp>, Req, Resp, Ch>(
    out: Observed<T, Req, Resp, Ch>,
) -> Observed<CommandOutput<Resp>, Req, Resp, Ch> {
    Observed {
        keep_active: out.keep_active,
        remaining: out.remaining,
        result: match out.result {
            Some(result) => Some(lifted_result(result)),
            None => None,
        },
    }
}

/// What a command of one kind has made of an event, read back from what any
/// command makes of it; nothing, where the result is of another kind.
pub open spec fn lowered_observed<T: Output<Resp>, Req, Resp, Ch>(
    out: Observed<CommandOutput<Resp>, Req, Resp, Ch>,
) -> Option<Observed<T, Req, Resp, Ch>> {
    match out.result {
        None => Some(Observed { keep_active: out.keep_active, remaining: out.remaining, result: None }),
        Some(result) => match lowered_result::<T, Resp>(result) {
            Some(inner) => Some(
                Observed {
                    keep_active: out.keep_active,
                    remaining: out.remaining,
                    result: Some(inner),
                },
            ),
            None => None,
        },
    }
}

/// What was lifted is found again.
pub proof fn lemma_lowered_observed<T: Output<Resp>, Req, Resp, Ch>(out: Observed<T, Req, Resp, Ch>)
    ensures
        lowered_observed::<T, Req, Resp, Ch>(lifted_observed(out)) == Some(out),
{
    match out.result {
        Some(Ok(value)) => {
            value.lemma_lowered_lifted();
        },
        _ => {},
    }
}

fn lift_result<T: Output<Resp>, Resp>(result: Result<T, Error>) -> (out: Result<CommandOutput<Resp>, Error>)
    ensures
        out == lifted_result(result),
{
    match result {
        Ok(value) => Ok(value.lift()),
        Err(error) => Err(error),
    }
}

fn lift_start<T: Output<Resp>, Req, Resp, Ch>(start: Start<T, Req, Resp, Ch>) -> (out: Start<
    CommandOutput<Resp>,
    Req,
    Resp,
    Ch,
>)
    ensures
        out == lifted_start(start),
{
    match start {
        Start::Finished { calls, result } => Start::Finished { calls, result: lift_result(result) },
        Start::Call { call } => Start::Call { call },
    }
}

fn lift_reply<T: Output<Resp>, Resp>(result: Option<Result<T, Error>>) -> (out: Option<
    Result<CommandOutput<Resp>, Error>,
>)
    ensures
        out == match result {
            Some(result) => Some(lifted_result(result)),
            None => None,
        },
{
    match result {
        Some(result) => Some(lift_result(result)),
        None => None,
    }
}

fn lift_observed<T: Output<Resp>, Req, Resp, Ch>(out: Observed<T, Req, Resp, Ch>) -> (lifted: Observed<
    CommandOutput<Resp>,
    Req,
    Resp,
    Ch,
>)
    ensures
        lifted == lifted_observed(out),
        lowered_observed::<T, Req, Resp, Ch>(lifted) == Some(out),
{
    proof {
        lemma_lowered_observed(out);
    }
    Observed {
        keep_active: out.keep_active,
        remaining: out.remaining,
        result: lift_reply(out.result),
    }
}

/// The first turn of a command of one kind, read back from the first turn of
/// any command; nothing, where the result is of another kind.
pub open spec fn lowered_start<T: Output<Resp>, Req, Resp, Ch>(
    start: Start<CommandOutput<Resp>, Req, Resp, Ch>,
) -> Option<Start<T, Req, Resp, Ch>> {
    match start {
        Start::Call { call } => Some(Start::Call { call }),
        Start::Finished { calls, result } => match lowered_result::<T, Resp>(result) {
            Some(inner) => Some(Start::Finished { calls, result: inner }),
            None => None,
        },
    }
}

/// What a command of one kind has made of an answer, read back from what any
/// command makes of it; nothing, where the result is of another kind.
pub open spec fn lowered_reply<T: Output<Resp>, Resp>(
    result: Option<Result<CommandOutput<Resp>, Error>>,
) -> Option<Option<Result<T, Error>>> {
    match result {
        None => Some(None),
        Some(result) => match lowered_result::<T, Resp>(result) {
            Some(inner) => Some(Some(inner)),
            None => None,
        },
    }
}

/// The result of a request, read back from the result of any command;
/// nothing, where the result is of another kind.
pub open spec fn lowered_response<Resp>(result: Result<CommandOutput<Resp>, Error>) -> Option<
    Result<Resp, Error>,
> {
    match result {
        Ok(CommandOutput::Response(response)) => Some(Ok(response)),
        Ok(_) => None,
        Err(error) => Some(Err(error)),
    }
}

/// Reads the response of a peer out of the result of any command. A result
/// of another kind is a failure.
pub fn typed_response<Resp>(result: Result<CommandOutput<Resp>, Error>) -> (out: Result<Resp, Error>)
    ensures
        match lowered_response(result) {
            Some(inner) => out == inner,
            None => out matches Err(failure) && failure.is(ErrorKind::Behaviour, another_kind()),
        },
{
    match result {
        Ok(CommandOutput::Response(response)) => Ok(response),
        Ok(_) => Err(Error::Behaviour(String::from_str("result of another kind"))),
        Err(failure) => Err(failure),
    }
}

/// The first turn of a request, read back from the first turn of any
/// command.
pub open spec fn lowered_request_start<Req, Resp, Ch>(
    start: Start<CommandOutput<Resp>, Req, Resp, Ch>,
) -> Option<Start<Resp, Req, Resp, Ch>> {
    match start {
        Start::Call { call } => Some(Start::Call { call }),
        Start::Finished { calls, result } => match lowered_response(result) {
            Some(inner) => Some(Start::Finished { calls, result: inner }),
            None => None,
        },
    }
}

/// What a request has made of an answer, read back from what any command
/// makes of it.
pub open spec fn lowered_request_reply<Resp>(
    result: Option<Result<CommandOutput<Resp>, Error>>,
) -> Option<Option<Result<Resp, Error>>> {
    match result {
        None => Some(None),
        Some(result) => match lowered_response(result) {
            Some(inner) => Some(Some(inner)),
            None => None,
        },
    }
}

/// What a request has made of an event, read back from what any command
/// makes of it.
pub open spec fn lowered_request_observed<Req, Resp, Ch>(
    out: Observed<CommandOutput<Resp>, Req, Resp, Ch>,
) -> Option<Observed<Resp, Req, Resp, Ch>> {
    match lowered_request_reply(out.result) {
        Some(inner) => Some(
            Observed { keep_active: out.keep_active, remaining: out.remaining, result: inner },
        ),
        None => None,
    }
}

/// What was lifted is found again.
proof fn lemma_lowered_start<T: Output<Resp>, Req, Resp, Ch>(start: Start<T, Req, Resp, Ch>)
    ensures
        lowered_start::<T, Req, Resp, Ch>(lifted_start(start)) == Some(start),
{
    match start {
        Start::Finished { calls, result: Ok(value) } => {
            value.lemma_lowered_lifted();
        },
        _ => {},
    }
}

/// What was lifted is found again.
proof fn lemma_lowered_reply<T: Output<Resp>, Resp>(result: Option<Result<T, Error>>)
    ensures
        lowered_reply::<T, Resp>(
            match result {
                Some(result) => Some(lifted_result(result)),
                None => None,
            },
        ) == Some(result),
{
    match result {
        Some(Ok(value)) => {
            value.lemma_lowered_lifted();
        },
        _ => {},
    }
}

fn lift_start_checked<T: Output<Resp>, Req, Resp, Ch>(start: Start<T, Req, Resp, Ch>) -> (out: Start<
    CommandOutput<Resp>,
    Req,
    Resp,
    Ch,
>)
    ensures
        lowered_start::<T, Req, Resp, Ch>(out) == Some(start),
{
    proof {
        lemma_lowered_start(start);
    }
    lift_start(start)
}

fn lift_reply_checked<T: Output<Resp>, Resp>(result: Option<Result<T, Error>>) -> (out: Option<
    Result<CommandOutput<Resp>, Error>,
>)
    ensures
        lowered_reply::<T, Resp>(out) == Some(result),
{
    proof {
        lemma_lowered_reply::<T, Resp>(result);
    }
    lift_reply(result)
}

fn lift_response<Resp>(result: Result<Resp, Error>) -> (out: Result<CommandOutput<Resp>, Error>)
    ensures
        lowered_response(out) == Some(result),
{
    match result {
        Ok(response) => Ok(CommandOutput::Response(response)),
        Err(error) => Err(error),
    }
}

fn lift_request_reply<Resp>(result: Option<Result<Resp, Error>>) -> (out: Option<
    Result<CommandOutput<Resp>, Error>,
>)
    ensures
        lowered_request_reply(out) == Some(result),
{
    match result {
        Some(result) => Some(lift_response(result)),
        None => None,
    }
}

/// A command of any kind.
pub enum Command<Req, Resp, Ch> {
    Dial(DialCommand),
    IsConnected(IsConnectedCommand),
    Disconnect(DisconnectCommand),
    GetListenAddrs(GetListenAddrsCommand),
    AddPeerAddrs(AddPeerAddrsCommand),
    Bootstrap(BootstrapCommand),
    GetRecord(GetRecordCommand),
    PutRecord(PutRecordCommand),
    StartProvide(StartProvideCommand),
    StopProvide(StopProvideCommand),
    RemoveRecord(RemoveRecordCommand),
    GetProviders(GetProvidersCommand),
    GetClosestPeers(GetClosestPeersCommand),
    SendRequest(SendRequestCommand<Req>),
    SendResponse(SendResponseCommand<Resp, Ch>),
}

impl<Req, Resp, Ch> Command<Req, Resp, Ch> {
    /// Whether the command is of a kind that waits for events of the network
    /// stack. The others are finished with their first turn or with the
    /// answer to its call.
    pub open spec fn waits(self) -> bool {
        match self {
            Command::Dial(_) => true,
            Command::Disconnect(_) => true,
            Command::Bootstrap(_) => true,
            Command::GetRecord(_) => true,
            Command::PutRecord(_) => true,
            Command::StartProvide(_) => true,
            Command::GetProviders(_) => true,
            Command::GetClosestPeers(_) => true,
            Command::SendRequest(_) => true,
            _ => false,
        }
    }

    /// Whether `event` is a step of the query that the command has running
    /// on the hash table.
    pub open spec fn is_step(self, event: SwarmEvent<Req, Resp, Ch>) -> bool {
        match self {
            Command::Bootstrap(c) => c.is_step(event),
            Command::GetRecord(c) => c.is_step(event),
            Command::PutRecord(c) => c.is_step(event),
            Command::StartProvide(c) => c.is_step(event),
            Command::GetProviders(c) => c.is_step(event),
            Command::GetClosestPeers(c) => c.is_step(event),
            _ => false,
        }
    }

    /// The statistics of the steps that the command's query has made so
    /// far, taken together.
    pub open spec fn stats(self) -> Option<QueryStatsInfo> {
        match self {
            Command::Bootstrap(c) => c.stats,
            Command::GetRecord(c) => c.stats,
            Command::PutRecord(c) => c.stats,
            Command::StartProvide(c) => c.stats,
            Command::GetProviders(c) => c.stats,
            Command::GetClosestPeers(c) => c.stats,
            _ => None,
        }
    }

    /// Whether the command stays among the running ones after `event`.
    pub open spec fn keeps(self, event: SwarmEvent<Req, Resp, Ch>) -> bool {
        match self {
            Command::Dial(c) => c.keeps(event),
            Command::Disconnect(c) => c.keeps(event),
            Command::Bootstrap(c) => c.keeps(event),
            Command::GetRecord(c) => c.keeps(event),
            Command::PutRecord(c) => c.keeps(event),
            Command::StartProvide(c) => c.keeps(event),
            Command::GetProviders(c) => c.keeps(event),
            Command::GetClosestPeers(c) => c.keeps(event),
            Command::SendRequest(c) => c.keeps(event),
            _ => false,
        }
    }

    /// Whether the command keeps `event` for itself, so that no command
    /// after it and no application sees it.
    pub open spec fn consumes(self, event: SwarmEvent<Req, Resp, Ch>) -> bool {
        match self {
            Command::SendRequest(c) => !c.keeps(event),
            _ => self.is_step(event),
        }
    }

    /// Whether `event` brings the command's result.
    pub open spec fn finishes(self, event: SwarmEvent<Req, Resp, Ch>) -> bool {
        self.waits() && !self.keeps(event)
    }

    /// Whether `start` is the command's first turn and `then` the command
    /// after it, as the command's kind has it.
    pub open spec fn started(
        self,
        view: SwarmView,
        start: Start<CommandOutput<Resp>, Req, Resp, Ch>,
        then: Self,
    ) -> bool {
        match (self, then) {
            (Command::Dial(c), Command::Dial(t)) => lowered_start::<(), Req, Resp, Ch>(start) matches Some(
                inner,
            ) && c.started(view, inner, t),
            (Command::IsConnected(c), Command::IsConnected(t)) => lowered_start::<bool, Req, Resp, Ch>(
                start,
            ) matches Some(inner) && c.started(view, inner, t),
            (Command::Disconnect(c), Command::Disconnect(t)) => lowered_start::<(), Req, Resp, Ch>(
                start,
            ) matches Some(inner) && c.started(inner, t),
            (Command::GetListenAddrs(c), Command::GetListenAddrs(t)) => lowered_start::<
                Vec<Multiaddr>,
                Req,
                Resp,
                Ch,
            >(start) matches Some(inner) && c.started(view, inner),
            (Command::AddPeerAddrs(c), Command::AddPeerAddrs(t)) => lowered_start::<(), Req, Resp, Ch>(
                start,
            ) matches Some(inner) && c.started(inner, t),
            (Command::Bootstrap(c), Command::Bootstrap(t)) => lowered_start::<
                BootstrapResult,
                Req,
                Resp,
                Ch,
            >(start) matches Some(inner) && c.started(inner, t),
            (Command::GetRecord(c), Command::GetRecord(t)) => lowered_start::<
                GetRecordResult,
                Req,
                Resp,
                Ch,
            >(start) matches Some(inner) && c.started(inner, t),
            (Command::PutRecord(c), Command::PutRecord(t)) => lowered_start::<
                QueryStatsInfo,
                Req,
                Resp,
                Ch,
            >(start) matches Some(inner) && c.started(inner, t),
            (Command::StartProvide(c), Command::StartProvide(t)) => lowered_start::<
                QueryStatsInfo,
                Req,
                Resp,
                Ch,
            >(start) matches Some(inner) && c.started(inner, t),
            (Command::StopProvide(c), Command::StopProvide(t)) => lowered_start::<(), Req, Resp, Ch>(
                start,
            ) matches Some(inner) && c.started(inner, t),
            (Command::RemoveRecord(c), Command::RemoveRecord(t)) => lowered_start::<(), Req, Resp, Ch>(
                start,
            ) matches Some(inner) && c.started(inner, t),
            (Command::GetProviders(c), Command::GetProviders(t)) => lowered_start::<
                GetProvidersResult,
                Req,
                Resp,
                Ch,
            >(start) matches Some(inner) && c.started(inner, t),
            (Command::GetClosestPeers(c), Command::GetClosestPeers(t)) => lowered_start::<
                GetClosestPeersResult,
                Req,
                Resp,
                Ch,
            >(start) matches Some(inner) && c.started(inner, t),
            (Command::SendRequest(c), Command::SendRequest(t)) => lowered_request_start(
                start,
            ) matches Some(inner) && c.started(inner, t),
            (Command::SendResponse(c), Command::SendResponse(t)) => lowered_start::<(), Req, Resp, Ch>(
                start,
            ) matches Some(inner) && c.started(inner, t),
            _ => false,
        }
    }

    /// Whether `result` is what the command makes of the answer `reply` to
    /// the call of its first turn, and `then` the command after it, as the
    /// command's kind has it. A command of a kind that names no call takes
    /// any answer for a failure.
    pub open spec fn replied(
        self,
        reply: SwarmReply,
        result: Option<Result<CommandOutput<Resp>, Error>>,
        then: Self,
    ) -> bool {
        match (self, then) {
            (Command::Dial(c), Command::Dial(t)) => lowered_reply::<(), Resp>(result) matches Some(
                inner,
            ) && c.replied(reply, inner, t),
            (Command::Disconnect(c), Command::Disconnect(t)) => lowered_reply::<(), Resp>(
                result,
            ) matches Some(inner) && c.replied(reply, inner, t),
            (Command::Bootstrap(c), Command::Bootstrap(t)) => lowered_reply::<BootstrapResult, Resp>(
                result,
            ) matches Some(inner) && c.replied(reply, inner, t),
            (Command::GetRecord(c), Command::GetRecord(t)) => lowered_reply::<GetRecordResult, Resp>(
                result,
            ) matches Some(inner) && c.replied(reply, inner, t),
            (Command::PutRecord(c), Command::PutRecord(t)) => lowered_reply::<QueryStatsInfo, Resp>(
                result,
            ) matches Some(inner) && c.replied(reply, inner, t),
            (Command::StartProvide(c), Command::StartProvide(t)) => lowered_reply::<
                QueryStatsInfo,
                Resp,
            >(result) matches Some(inner) && c.replied(reply, inner, t),
            (Command::GetProviders(c), Command::GetProviders(t)) => lowered_reply::<
                GetProvidersResult,
                Resp,
            >(result) matches Some(inner) && c.replied(reply, inner, t),
            (Command::GetClosestPeers(c), Command::GetClosestPeers(t)) => lowered_reply::<
                GetClosestPeersResult,
                Resp,
            >(result) matches Some(inner) && c.replied(reply, inner, t),
            (Command::SendRequest(c), Command::SendRequest(t)) => lowered_request_reply(
                result,
            ) matches Some(inner) && c.replied(reply, inner, t),
            (Command::SendResponse(c), Command::SendResponse(t)) => lowered_reply::<(), Resp>(
                result,
            ) matches Some(inner) && c.replied(reply, inner, t),
            _ => then == self && fails_with(result, ErrorKind::Behaviour, no_answer()),
        }
    }

    /// Whether `out` is what the command makes of `event`, as the command's
    /// kind has it. A command of a kind that does not wait for events leaves
    /// every event to others and asks to be dropped.
    pub open spec fn observed(
        self,
        event: SwarmEvent<Req, Resp, Ch>,
        out: Observed<CommandOutput<Resp>, Req, Resp, Ch>,
    ) -> bool {
        match self {
            Command::Dial(c) => lowered_observed::<(), Req, Resp, Ch>(out) matches Some(inner)
                && c.observed(event, inner),
            Command::Disconnect(c) => lowered_observed::<(), Req, Resp, Ch>(out) matches Some(inner)
                && c.observed(event, inner),
            Command::Bootstrap(c) => lowered_observed::<BootstrapResult, Req, Resp, Ch>(
                out,
            ) matches Some(inner) && c.observed(event, inner),
            Command::GetRecord(c) => lowered_observed::<GetRecordResult, Req, Resp, Ch>(
                out,
            ) matches Some(inner) && c.observed(event, inner),
            Command::PutRecord(c) => lowered_observed::<QueryStatsInfo, Req, Resp, Ch>(
                out,
            ) matches Some(inner) && c.observed(event, inner),
            Command::StartProvide(c) => lowered_observed::<QueryStatsInfo, Req, Resp, Ch>(
                out,
            ) matches Some(inner) && c.observed(event, inner),
            Command::GetProviders(c) => lowered_observed::<GetProvidersResult, Req, Resp, Ch>(
                out,
            ) matches Some(inner) && c.observed(event, inner),
            Command::GetClosestPeers(c) => lowered_observed::<GetClosestPeersResult, Req, Resp, Ch>(
                out,
            ) matches Some(inner) && c.observed(event, inner),
            Command::SendRequest(c) => lowered_request_observed(out) matches Some(inner)
                && c.observed(event, inner),
            _ => !out.keep_active && out.remaining == Some(event) && out.result is None,
        }
    }

    /// Whether `then` is the command as it is after it has seen `event`.
    pub open spec fn after(self, event: SwarmEvent<Req, Resp, Ch>, then: Self) -> bool {
        match (self, then) {
            (Command::Bootstrap(c), Command::Bootstrap(t)) => c.after(event, t),
            (Command::GetRecord(c), Command::GetRecord(t)) => c.after(event, t),
            (Command::PutRecord(c), Command::PutRecord(t)) => c.after(event, t),
            (Command::StartProvide(c), Command::StartProvide(t)) => c.after(event, t),
            (Command::GetProviders(c), Command::GetProviders(t)) => c.after(event, t),
            (Command::GetClosestPeers(c), Command::GetClosestPeers(t)) => c.after(event, t),
            _ => then == self,
        }
    }

    /// The command's first turn.
    pub fn run(&mut self, view: &SwarmView) -> (start: Start<CommandOutput<Resp>, Req, Resp, Ch>)
        ensures
            old(self).started(*view, start, *final(self)),
    {
        match self {
            Command::Dial(c) => lift_start_checked(c.run(view)),
            Command::IsConnected(c) => lift_start_checked(c.run(view)),
            Command::Disconnect(c) => lift_start_checked(c.run()),
            Command::GetListenAddrs(c) => lift_start_checked(c.run(view)),
            Command::AddPeerAddrs(c) => lift_start_checked(c.run()),
            Command::Bootstrap(c) => lift_start_checked(c.run()),
            Command::GetRecord(c) => lift_start_checked(c.run()),
            Command::PutRecord(c) => lift_start_checked(c.run()),
            Command::StartProvide(c) => lift_start_checked(c.run()),
            Command::StopProvide(c) => lift_start_checked(c.run()),
            Command::RemoveRecord(c) => lift_start_checked(c.run()),
            Command::GetProviders(c) => lift_start_checked(c.run()),
            Command::GetClosestPeers(c) => lift_start_checked(c.run()),
            Command::SendRequest(c) => match c.run() {
                Start::Finished { calls, result } => Start::Finished { calls, result: lift_response(result) },
                Start::Call { call } => Start::Call { call },
            },
            Command::SendResponse(c) => lift_start_checked(c.run()),
        }
    }

    /// Takes the network stack's answer to the call of the first turn.
    pub fn on_reply(&mut self, reply: SwarmReply) -> (result: Option<Result<CommandOutput<Resp>, Error>>)
        ensures
            old(self).replied(reply, result, *final(self)),
    {
        match self {
            Command::Dial(c) => lift_reply_checked(c.on_reply(reply)),
            Command::Disconnect(c) => lift_reply_checked(c.on_reply(reply)),
            Command::Bootstrap(c) => lift_reply_checked(c.on_reply(reply)),
            Command::GetRecord(c) => lift_reply_checked(c.on_reply(reply)),
            Command::PutRecord(c) => lift_reply_checked(c.on_reply(reply)),
            Command::StartProvide(c) => lift_reply_checked(c.on_reply(reply)),
            Command::GetProviders(c) => lift_reply_checked(c.on_reply(reply)),
            Command::GetClosestPeers(c) => lift_reply_checked(c.on_reply(reply)),
            Command::SendRequest(c) => lift_request_reply(c.on_reply(reply)),
            Command::SendResponse(c) => lift_reply_checked(c.on_reply(reply)),
            _ => unanswered(),
        }
    }

    /// Shows the command an event of the network stack.
    pub fn on_event(&mut self, event: SwarmEvent<Req, Resp, Ch>) -> (out: Observed<
        CommandOutput<Resp>,
        Req,
        Resp,
        Ch,
    >)
        ensures
            old(self).observed(event, out),
            old(self).after(event, *final(self)),
            out.keep_active == old(self).keeps(event),
            out.remaining == if old(self).consumes(event) {
                None
            } else {
                Some(event)
            },
            out.result is Some == old(self).finishes(event),
    {
        match self {
            Command::Dial(c) => lift_observed(c.on_event(event)),
            Command::Disconnect(c) => lift_observed(c.on_event(event)),
            Command::Bootstrap(c) => lift_observed(c.on_event(event)),
            Command::GetRecord(c) => lift_observed(c.on_event(event)),
            Command::PutRecord(c) => lift_observed(c.on_event(event)),
            Command::StartProvide(c) => lift_observed(c.on_event(event)),
            Command::GetProviders(c) => lift_observed(c.on_event(event)),
            Command::GetClosestPeers(c) => lift_observed(c.on_event(event)),
            Command::SendRequest(c) => {
                let inner = c.on_event(event);
                Observed {
                    keep_active: inner.keep_active,
                    remaining: inner.remaining,
                    result: lift_request_reply(inner.result),
                }
            },
            _ => Observed { keep_active: false, remaining: Some(event), result: None },
        }
    }
}

/// A command together with the handle through which its result is
/// delivered. The handle is the caller's; it is carried along and handed
/// back with the result.
pub struct CommandTask<Req, Resp, Ch, H> {
    pub handler: Command<Req, Resp, Ch>,
    pub handle: H,
}

impl<Req, Resp, Ch, H> CommandTask<Req, Resp, Ch, H> {
    /// Puts a command and its handle together.
    pub fn new(handler: Command<Req, Resp, Ch>, handle: H) -> (task: Self)
        ensures
            task.handler == handler,
            task.handle == handle,
    {
        CommandTask { handler, handle }
    }
}

/// The result of a command, with the handle through which it is delivered.
pub struct Completion<Resp, H> {
    pub handle: H,
    pub result: Result<CommandOutput<Resp>, Error>,
}

} // verus!
