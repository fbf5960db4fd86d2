use svoyak::dialogue::{callback_schema, schema, CallbackEndpoint, Command, Endpoint, State};

fn phone_state() -> State {
    State::ReceivePlayerPhoneNumber {
        player_real_first_name: "Иван".to_string(),
        player_real_patronymic: "Иванович".to_string(),
        player_real_last_name: "Иванов".to_string(),
        player_real_location: "Тверь".to_string(),
    }
}

#[test]
fn start_is_honoured_where_commands_are() {
    assert_eq!(schema(&State::Start, Some(Command::Start)), Endpoint::Start);
    assert_eq!(schema(&State::ConfirmationOfRegistration, Some(Command::Start)), Endpoint::Start);
    assert_eq!(schema(&phone_state(), Some(Command::Start)), Endpoint::Start);
    assert_eq!(schema(&State::RegistrationComplete, Some(Command::Start)), Endpoint::Start);
}

#[test]
fn typing_states_take_other_commands_as_text() {
    assert_eq!(schema(&phone_state(), Some(Command::Help)), Endpoint::Help);
    assert_eq!(schema(&phone_state(), Some(Command::RegGame)), Endpoint::ReceivePlayerPhoneNumber);
    assert_eq!(
        schema(&State::ReceiveSingleQuestionFromPlayer, Some(Command::Question)),
        Endpoint::ReceiveSingleQuestion
    );
}

#[test]
fn full_menu_after_registration() {
    assert_eq!(schema(&State::RegistrationComplete, Some(Command::Playerdata)), Endpoint::PlayerData);
    assert_eq!(schema(&State::RegistrationComplete, Some(Command::Statistics)), Endpoint::Statistic);
    assert_eq!(schema(&State::RegistrationComplete, Some(Command::Rename)), Endpoint::Rename);
    assert_eq!(schema(&State::RegistrationComplete, Some(Command::RegGame)), Endpoint::RegGame);
    assert_eq!(schema(&State::RegistrationComplete, Some(Command::Question)), Endpoint::Question);
    assert_eq!(schema(&State::RegistrationComplete, None), Endpoint::RegistrationComplete);
}

#[test]
fn states_without_commands_or_text() {
    assert_eq!(schema(&State::NumberQuestionFromPlayer, Some(Command::Start)), Endpoint::Question);
    assert_eq!(schema(&State::ConfirmationQuestionFromPlayer, Some(Command::Start)), Endpoint::InvalidState);
    assert_eq!(schema(&State::Start, None), Endpoint::InvalidState);
    assert_eq!(schema(&State::Start, Some(Command::Help)), Endpoint::InvalidState);
    assert_eq!(schema(&State::RegistrationForTheGame, None), Endpoint::InvalidState);
}

#[test]
fn buttons_are_answered_in_three_states() {
    assert_eq!(
        callback_schema(&State::ConfirmationOfRegistration),
        Some(CallbackEndpoint::ConfirmationOfRegistration)
    );
    assert_eq!(
        callback_schema(&State::ChoiceNumberQuestionFromPlayer),
        Some(CallbackEndpoint::ChoiceNumberQuestionFromPlayer)
    );
    assert_eq!(
        callback_schema(&State::RegistrationForTheGame),
        Some(CallbackEndpoint::ChoiceRegistrationForTheGame)
    );
    assert_eq!(callback_schema(&State::RegistrationComplete), None);
}
