//! The Telegram dialogue of a player: the states of the conversation, the
//! commands of the menu, and which handler answers a message or a button
//! press in each state.

use vstd::prelude::*;

verus! {

/// State of the conversation with one player.
#[derive(Clone, Debug)]
pub enum State {
    Start,
    ReceivePlayerRealFirstName,
    ReceivePlayerRealPatronymic { player_real_first_name: String },
    ReceivePlayerRealLastName { player_real_first_name: String, player_real_patronymic: String },
    ReceivePlayerRealLocation {
        player_real_first_name: String,
        player_real_patronymic: String,
        player_real_last_name: String,
    },
    ReceivePlayerPhoneNumber {
        player_real_first_name: String,
        player_real_patronymic: String,
        player_real_last_name: String,
        player_real_location: String,
    },
    ConfirmationOfRegistration,
    RegistrationComplete,
    NumberQuestionFromPlayer,
    ReceiveSingleQuestionFromPlayer,
    ReceiveSingleAnswerQuestionFromPlayer { player_single_question: String },
    ConfirmationSingleQuestionFromPlayer,
    ReceiveTopicMultiQuestionFromPlayer,
    ReceiveFirstQuestionFromPlayer { player_topic_multi_question: String },
    ReceiveFirstAnswerQuestionFromPlayer { player_topic_multi_question: String, player_first_question: String },
    ReceiveSecondQuestionFromPlayer {
        player_topic_multi_question: String,
        player_first_question: String,
        player_first_answer_question: String,
    },
    ReceiveSecondAnswerQuestionFromPlayer {
        player_topic_multi_question: String,
        player_first_question: String,
        player_first_answer_question: String,
        player_second_question: String,
    },
    ReceiveThirdQuestionFromPlayer {
        player_topic_multi_question: String,
        player_first_question: String,
        player_first_answer_question: String,
        player_second_question: String,
        player_second_answer_question: String,
    },
    ReceiveThirdAnswerQuestionFromPlayer {
        player_topic_multi_question: String,
        player_first_question: String,
        player_first_answer_question: String,
        player_second_question: String,
        player_second_answer_question: String,
        player_third_question: String,
    },
    ReceiveFourthQuestionFromPlayer {
        player_topic_multi_question: String,
        player_first_question: String,
        player_first_answer_question: String,
        player_second_question: String,
        player_second_answer_question: String,
        player_third_question: String,
        player_third_answer_question: String,
    },
    ReceiveFourthAnswerQuestionFromPlayer {
        player_topic_multi_question: String,
        player_first_question: String,
        player_first_answer_question: String,
        player_second_question: String,
        player_second_answer_question: String,
        player_third_question: String,
        player_third_answer_question: String,
        player_fourth_question: String,
    },
    ReceiveFifthQuestionFromPlayer {
        player_topic_multi_question: String,
        player_first_question: String,
        player_first_answer_question: String,
        player_second_question: String,
        player_second_answer_question: String,
        player_third_question: String,
        player_third_answer_question: String,
        player_fourth_question: String,
        player_fourth_answer_question: String,
    },
    ReceiveFifthAnswerQuestionFromPlayer {
        player_topic_multi_question: String,
        player_first_question: String,
        player_first_answer_question: String,
        player_second_question: String,
        player_second_answer_question: String,
        player_third_question: String,
        player_third_answer_question: String,
        player_fourth_question: String,
        player_fourth_answer_question: String,
        player_fifth_question: String,
    },
    ChoiceNumberQuestionFromPlayer,
    ConfirmationQuestionFromPlayer,
    RegistrationForTheGame,
}

/// The commands of the bot's menu.
#[derive(Clone, Copy, PartialEq, Eq, Structural, Debug)]
pub enum Command {
    Start,
    Help,
    Rules,
    Playerdata,
    Rename,
    Statistics,
    RegGame,
    Question,
}

/// The handler that answers a message.
#[derive(Clone, Copy, PartialEq, Eq, Structural, Debug)]
pub enum Endpoint {
    Start,
    Help,
    Rules,
    PlayerData,
    Statistic,
    Rename,
    RegGame,
    Question,
    ReceivePlayerRealFirstName,
    ReceivePlayerRealPatronymic,
    ReceivePlayerRealLastName,
    ReceivePlayerRealLocation,
    ReceivePlayerPhoneNumber,
    RegistrationComplete,
    ReceiveSingleQuestion,
    ReceiveSingleAnswerFromPlayer,
    ReceiveTopicMultiQuestionFromPlayer,
    ReceiveFirstQuestionFromPlayer,
    ReceiveFirstAnswerQuestionFromPlayer,
    ReceiveSecondQuestionFromPlayer,
    ReceiveSecondAnswerQuestionFromPlayer,
    ReceiveThirdQuestionFromPlayer,
    ReceiveThirdAnswerQuestionFromPlayer,
    ReceiveFourthQuestionFromPlayer,
    ReceiveFourthAnswerQuestionFromPlayer,
    ReceiveFifthQuestionFromPlayer,
    ReceiveFifthAnswerQuestionFromPlayer,
    InvalidState,
}

/// The handler that answers a press of an inline button.
#[derive(Clone, Copy, PartialEq, Eq, Structural, Debug)]
pub enum CallbackEndpoint {
    ConfirmationOfRegistration,
    ChoiceNumberQuestionFromPlayer,
    ChoiceRegistrationForTheGame,
}

/// Which commands a state honours.
#[derive(Clone, Copy, PartialEq, Eq, Structural, Debug)]
pub enum CommandSet {
    /// None: every message goes to the state's own handler.
    NoCommands,
    /// Only `/start`.
    StartOnly,
    /// `/start`, `/help` and `/rules`, while the player is typing an answer.
    Basic,
    /// The whole menu.
    Full,
}

pub open spec fn command_set(s: State) -> CommandSet {
    match s {
        State::Start | State::ConfirmationOfRegistration => CommandSet::StartOnly,
        State::ReceivePlayerRealFirstName
        | State::ReceivePlayerRealPatronymic { .. }
        | State::ReceivePlayerRealLastName { .. }
        | State::ReceivePlayerRealLocation { .. }
        | State::ReceivePlayerPhoneNumber { .. }
        | State::ReceiveSingleQuestionFromPlayer
        | State::ReceiveSingleAnswerQuestionFromPlayer { .. } => CommandSet::Basic,
        State::NumberQuestionFromPlayer | State::ConfirmationQuestionFromPlayer => CommandSet::NoCommands,
        _ => CommandSet::Full,
    }
}

pub open spec fn allows(set: CommandSet, c: Command) -> bool {
    match set {
        CommandSet::NoCommands => false,
        CommandSet::StartOnly => c == Command::Start,
        CommandSet::Basic => c == Command::Start || c == Command::Help || c == Command::Rules,
        CommandSet::Full => true,
    }
}

pub open spec fn command_endpoint(c: Command) -> Endpoint {
    match c {
        Command::Start => Endpoint::Start,
        Command::Help => Endpoint::Help,
        Command::Rules => Endpoint::Rules,
        Command::Playerdata => Endpoint::PlayerData,
        Command::Rename => Endpoint::Rename,
        Command::Statistics => Endpoint::Statistic,
        Command::RegGame => Endpoint::RegGame,
        Command::Question => Endpoint::Question,
    }
}

/// The handler of a message that is not an honoured command.
pub open spec fn message_endpoint(s: State) -> Endpoint {
    match s {
        State::ReceivePlayerRealFirstName => Endpoint::ReceivePlayerRealFirstName,
        State::ReceivePlayerRealPatronymic { .. } => Endpoint::ReceivePlayerRealPatronymic,
        State::ReceivePlayerRealLastName { .. } => Endpoint::ReceivePlayerRealLastName,
        State::ReceivePlayerRealLocation { .. } => Endpoint::ReceivePlayerRealLocation,
        State::ReceivePlayerPhoneNumber { .. } => Endpoint::ReceivePlayerPhoneNumber,
        State::RegistrationComplete => Endpoint::RegistrationComplete,
        State::NumberQuestionFromPlayer => Endpoint::Question,
        State::ReceiveSingleQuestionFromPlayer => Endpoint::ReceiveSingleQuestion,
        State::ReceiveSingleAnswerQuestionFromPlayer { .. } => Endpoint::ReceiveSingleAnswerFromPlayer,
        State::ReceiveTopicMultiQuestionFromPlayer => Endpoint::ReceiveTopicMultiQuestionFromPlayer,
        State::ReceiveFirstQuestionFromPlayer { .. } => Endpoint::ReceiveFirstQuestionFromPlayer,
        State::ReceiveFirstAnswerQuestionFromPlayer { .. } => Endpoint::ReceiveFirstAnswerQuestionFromPlayer,
        State::ReceiveSecondQuestionFromPlayer { .. } => Endpoint::ReceiveSecondQuestionFromPlayer,
        State::ReceiveSecondAnswerQuestionFromPlayer { .. } => Endpoint::ReceiveSecondAnswerQuestionFromPlayer,
        State::ReceiveThirdQuestionFromPlayer { .. } => Endpoint::ReceiveThirdQuestionFromPlayer,
        State::ReceiveThirdAnswerQuestionFromPlayer { .. } => Endpoint::ReceiveThirdAnswerQuestionFromPlayer,
        State::ReceiveFourthQuestionFromPlayer { .. } => Endpoint::ReceiveFourthQuestionFromPlayer,
        State::ReceiveFourthAnswerQuestionFromPlayer { .. } => Endpoint::ReceiveFourthAnswerQuestionFromPlayer,
        State::ReceiveFifthQuestionFromPlayer { .. } => Endpoint::ReceiveFifthQuestionFromPlayer,
        State::ReceiveFifthAnswerQuestionFromPlayer { .. } => Endpoint::ReceiveFifthAnswerQuestionFromPlayer,
        _ => Endpoint::InvalidState,
    }
}

/// The handler of a message in state `s`; `command` is the menu command the
/// message's text spells, if it spells one.
pub open spec fn message_route(s: State, command: Option<Command>) -> Endpoint {
    match command {
        Some(c) => if allows(command_set(s), c) {
            command_endpoint(c)
        } else {
            message_endpoint(s)
        },
        None => message_endpoint(s),
    }
}

/// The handler of a button press in state `s`; in other states a press is
/// left unanswered.
pub open spec fn callback_route(s: State) -> Option<CallbackEndpoint> {
    match s {
        State::ConfirmationOfRegistration => Some(CallbackEndpoint::ConfirmationOfRegistration),
        State::ChoiceNumberQuestionFromPlayer => Some(CallbackEndpoint::ChoiceNumberQuestionFromPlayer),
        State::RegistrationForTheGame => Some(CallbackEndpoint::ChoiceRegistrationForTheGame),
        _ => None,
    }
}

fn command_set_of(s: &State) -> (set: CommandSet)
    ensures
        set == command_set(*s),
{
    match s {
        State::Start | State::ConfirmationOfRegistration => CommandSet::StartOnly,
        State::ReceivePlayerRealFirstName
        | State::ReceivePlayerRealPatronymic { .. }
        | State::ReceivePlayerRealLastName { .. }
        | State::ReceivePlayerRealLocation { .. }
        | State::ReceivePlayerPhoneNumber { .. }
        | State::ReceiveSingleQuestionFromPlayer
        | State::ReceiveSingleAnswerQuestionFromPlayer { .. } => CommandSet::Basic,
        State::NumberQuestionFromPlayer | State::ConfirmationQuestionFromPlayer => CommandSet::NoCommands,
        _ => CommandSet::Full,
    }
}

fn allows_command(set: CommandSet, c: Command) -> (r: bool)
    ensures
        r == allows(set, c),
{
    match set {
        CommandSet::NoCommands => false,
        CommandSet::StartOnly => c == Command::Start,
        CommandSet::Basic => c == Command::Start || c == Command::Help || c == Command::Rules,
        CommandSet::Full => true,
    }
}

fn endpoint_of_command(c: Command) -> (e: Endpoint)
    ensures
        e == command_endpoint(c),
{
    match c {
        Command::Start => Endpoint::Start,
        Command::Help => Endpoint::Help,
        Command::Rules => Endpoint::Rules,
        Command::Playerdata => Endpoint::PlayerData,
        Command::Rename => Endpoint::Rename,
        Command::Statistics => Endpoint::Statistic,
        Command::RegGame => Endpoint::RegGame,
        Command::Question => Endpoint::Question,
    }
}

fn endpoint_of_message(s: &State) -> (e: Endpoint)
    ensures
        e == message_endpoint(*s),
{
    match s {
        State::ReceivePlayerRealFirstName => Endpoint::ReceivePlayerRealFirstName,
        State::ReceivePlayerRealPatronymic { .. } => Endpoint::ReceivePlayerRealPatronymic,
        State::ReceivePlayerRealLastName { .. } => Endpoint::ReceivePlayerRealLastName,
        State::ReceivePlayerRealLocation { .. } => Endpoint::ReceivePlayerRealLocation,
        State::ReceivePlayerPhoneNumber { .. } => Endpoint::ReceivePlayerPhoneNumber,
        State::RegistrationComplete => Endpoint::RegistrationComplete,
        State::NumberQuestionFromPlayer => Endpoint::Question,
        State::ReceiveSingleQuestionFromPlayer => Endpoint::ReceiveSingleQuestion,
        State::ReceiveSingleAnswerQuestionFromPlayer { .. } => Endpoint::ReceiveSingleAnswerFromPlayer,
        State::ReceiveTopicMultiQuestionFromPlayer => Endpoint::ReceiveTopicMultiQuestionFromPlayer,
        State::ReceiveFirstQuestionFromPlayer { .. } => Endpoint::ReceiveFirstQuestionFromPlayer,
        State::ReceiveFirstAnswerQuestionFromPlayer { .. } => Endpoint::ReceiveFirstAnswerQuestionFromPlayer,
        State::ReceiveSecondQuestionFromPlayer { .. } => Endpoint::ReceiveSecondQuestionFromPlayer,
        State::ReceiveSecondAnswerQuestionFromPlayer { .. } => Endpoint::ReceiveSecondAnswerQuestionFromPlayer,
        State::ReceiveThirdQuestionFromPlayer { .. } => Endpoint::ReceiveThirdQuestionFromPlayer,
        State::ReceiveThirdAnswerQuestionFromPlayer { .. } => Endpoint::ReceiveThirdAnswerQuestionFromPlayer,
        State::ReceiveFourthQuestionFromPlayer { .. } => Endpoint::ReceiveFourthQuestionFromPlayer,
        State::ReceiveFourthAnswerQuestionFromPlayer { .. } => Endpoint::ReceiveFourthAnswerQuestionFromPlayer,
        State::ReceiveFifthQuestionFromPlayer { .. } => Endpoint::ReceiveFifthQuestionFromPlayer,
        State::ReceiveFifthAnswerQuestionFromPlayer { .. } => Endpoint::ReceiveFifthAnswerQuestionFromPlayer,
        _ => Endpoint::InvalidState,
    }
}

/// The dispatch of the bot: which handler answers a message in state
/// `state`, given the menu command the message spells, if any.
pub fn schema(state: &State, command: Option<Command>) -> (e: Endpoint)
    ensures
        e == message_route(*state, command),
{
    match command {
        Some(c) => {
            if allows_command(command_set_of(state), c) {
                endpoint_of_command(c)
            } else {
                endpoint_of_message(state)
            }
        },
        None => endpoint_of_message(state),
    }
}

/// Which handler answers a button press in state `state`.
pub fn callback_schema(state: &State) -> (e: Option<CallbackEndpoint>)
    ensures
        e == callback_route(*state),
{
    match state {
        State::ConfirmationOfRegistration => Some(CallbackEndpoint::ConfirmationOfRegistration),
        State::ChoiceNumberQuestionFromPlayer => Some(CallbackEndpoint::ChoiceNumberQuestionFromPlayer),
        State::RegistrationForTheGame => Some(CallbackEndpoint::ChoiceRegistrationForTheGame),
        _ => None,
    }
}

/// `/start` restarts the conversation from every state that takes
/// commands at all.
pub proof fn lemma_start_always_available(s: State)
    requires
        s != State::NumberQuestionFromPlayer,
        s != State::ConfirmationQuestionFromPlayer,
    ensures
        message_route(s, Some(Command::Start)) == Endpoint::Start,
{
}

/// While a player is typing an answer (a name, a phone number, a question),
/// only `/start`, `/help` and `/rules` act as commands: any other command
/// is taken as the typed answer.
pub proof fn lemma_typing_keeps_the_answer(s: State, c: Command)
    requires
        command_set(s) == CommandSet::Basic,
        c != Command::Start && c != Command::Help && c != Command::Rules,
    ensures
        message_route(s, Some(c)) == message_endpoint(s),
        message_endpoint(s) != Endpoint::InvalidState,
{
}

/// Plain text goes to the state's own handler, and while the bot waits for
/// a button press typed text is not accepted.
pub proof fn lemma_buttons_awaited_refuse_text(s: State)
    ensures
        message_route(s, None) == message_endpoint(s),
        callback_route(s) is Some ==> message_endpoint(s) == Endpoint::InvalidState,
{
}

} // verus!
