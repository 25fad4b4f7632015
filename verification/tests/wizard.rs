use series_troxide::title_bar;
use series_troxide::trakt::{
    Client, ClientPageMessage, CodeResponse, ConfirmationPageMessage, Credentials,
    CredentialsError, Event, Input, Message, ProgramAuthenticationPageMessage, StartPageMessage,
    TokenResponse, TraktAction, TraktIntegration, UserSettings,
};

fn no_env_client() -> Result<Client, CredentialsError> {
    Err(CredentialsError)
}

fn code_response() -> CodeResponse {
    CodeResponse {
        device_code: String::from("device-123"),
        user_code: String::from("USER-CODE"),
        verification_url: String::from("https://example.invalid/activate"),
        expires_in: 600,
        interval: 5,
    }
}

#[test]
fn loading_credentials_is_requested_then_opens_the_start_page() {
    let mut wizard = TraktIntegration::new();
    assert!(!wizard.has_active_setup());

    let action = wizard.update(Message::LoadCredentials, no_env_client());
    assert!(matches!(action, TraktAction::LoadCredentialsFromFile));
    assert!(!wizard.has_active_setup());

    let action = wizard.update(Message::CredentialsLoaded(Credentials::default()), no_env_client());
    assert!(matches!(action, TraktAction::DoNothing));
    assert!(wizard.has_active_setup());
}

#[test]
fn cancel_closes_any_open_page() {
    let mut wizard = TraktIntegration::new();
    wizard.update(Message::CredentialsLoaded(Credentials::default()), no_env_client());
    assert!(wizard.has_active_setup());
    let action = wizard.update(Message::Cancel, no_env_client());
    assert!(matches!(action, TraktAction::DoNothing));
    assert!(!wizard.has_active_setup());
}

#[test]
fn removing_the_account_deletes_the_file_then_closes() {
    let mut wizard = TraktIntegration::new();
    wizard.update(Message::CredentialsLoaded(Credentials::default()), no_env_client());

    let action = wizard.update(
        Message::StartPage(StartPageMessage::RemoveAccount),
        no_env_client(),
    );
    assert!(matches!(action, TraktAction::RemoveCredentialsFile));
    assert!(wizard.has_active_setup());

    let action = wizard.update(
        Message::StartPage(StartPageMessage::AccountRemoved),
        no_env_client(),
    );
    assert!(matches!(action, TraktAction::DoNothing));
    assert!(!wizard.has_active_setup());
}

#[test]
fn typed_client_information_feeds_the_device_code_request() {
    let mut wizard = TraktIntegration::new();
    wizard.update(Message::CredentialsLoaded(Credentials::default()), no_env_client());
    wizard.update(Message::StartPage(StartPageMessage::ConnectAccount), no_env_client());

    wizard.update(
        Message::ClientPage(ClientPageMessage::ClientIdChanged(String::from("typed-id"))),
        no_env_client(),
    );
    wizard.update(
        Message::ClientPage(ClientPageMessage::ClientSecretChanged(String::from("typed-secret"))),
        no_env_client(),
    );

    let action = wizard.update(Message::ClientPage(ClientPageMessage::Submit), no_env_client());
    match action {
        TraktAction::RequestDeviceCode(client_id) => assert_eq!(client_id, "typed-id"),
        other => panic!("expected a device-code request, got {:?}", other),
    }
}

#[test]
fn environment_client_wins_over_typed_fields() {
    let env = Ok(Client {
        client_id: String::from("env-id"),
        client_secret: String::from("env-secret"),
    });
    let mut wizard = TraktIntegration::new();
    wizard.update(Message::CredentialsLoaded(Credentials::default()), no_env_client());
    wizard.update(Message::StartPage(StartPageMessage::ConnectAccount), env);

    let action = wizard.update(Message::ClientPage(ClientPageMessage::Submit), no_env_client());
    match action {
        TraktAction::RequestDeviceCode(client_id) => assert_eq!(client_id, "env-id"),
        other => panic!("expected a device-code request, got {:?}", other),
    }
}

#[test]
fn device_code_flow_runs_to_saved_credentials() {
    let mut wizard = TraktIntegration::new();
    wizard.update(Message::CredentialsLoaded(Credentials::default()), no_env_client());
    wizard.update(Message::StartPage(StartPageMessage::ConnectAccount), no_env_client());
    wizard.update(
        Message::ClientPage(ClientPageMessage::ClientIdChanged(String::from("id"))),
        no_env_client(),
    );
    wizard.update(
        Message::ClientPage(ClientPageMessage::ClientSecretChanged(String::from("secret"))),
        no_env_client(),
    );
    wizard.update(Message::ClientPage(ClientPageMessage::Submit), no_env_client());

    // The device code arrives: the authentication page opens with the
    // expiry window as its countdown.
    wizard.update(
        Message::ClientPage(ClientPageMessage::CodeReceived(Ok(code_response()))),
        no_env_client(),
    );
    assert_eq!(wizard.authentication_count_down(), Some(600));

    // The worker is ready: the code and client are handed to it.
    let action = wizard.update(
        Message::ProgramAuthenticationPage(ProgramAuthenticationPageMessage::AuthenticationEvent(
            Event::Ready,
        )),
        no_env_client(),
    );
    match action {
        TraktAction::SendAuthentication(Input::AuthenticateCode(code, client)) => {
            assert_eq!(code.device_code, "device-123");
            assert_eq!(client.client_id, "id");
            assert_eq!(client.client_secret, "secret");
        },
        other => panic!("expected an authentication request, got {:?}", other),
    }

    // Two polling intervals pass.
    for _ in 0..2 {
        wizard.update(
            Message::ProgramAuthenticationPage(
                ProgramAuthenticationPageMessage::AuthenticationEvent(Event::Progressing),
            ),
            no_env_client(),
        );
    }
    assert_eq!(wizard.authentication_count_down(), Some(590));

    // The token is granted: the account settings are requested.
    let token = TokenResponse { access_token: String::from("token-xyz") };
    let action = wizard.update(
        Message::ProgramAuthenticationPage(ProgramAuthenticationPageMessage::AuthenticationEvent(
            Event::WorkFinished(Some(token)),
        )),
        no_env_client(),
    );
    match action {
        TraktAction::RequestUserSettings { client_id, access_token } => {
            assert_eq!(client_id, "id");
            assert_eq!(access_token, "token-xyz");
        },
        other => panic!("expected a settings request, got {:?}", other),
    }

    // The settings arrive: the confirmation page opens, and confirming
    // saves both token and user.
    wizard.update(
        Message::ProgramAuthenticationPage(ProgramAuthenticationPageMessage::UserSettingsLoaded(
            UserSettings { username: String::from("viewer") },
        )),
        no_env_client(),
    );
    let action = wizard.update(
        Message::ConfirmationPage(ConfirmationPageMessage::SaveCredentials),
        no_env_client(),
    );
    match action {
        TraktAction::SaveCredentials(credentials) => {
            let (user, token) = credentials.get_data().unwrap();
            assert_eq!(user.username, "viewer");
            assert_eq!(token.access_token, "token-xyz");
        },
        other => panic!("expected a save request, got {:?}", other),
    }

    let action = wizard.update(
        Message::ConfirmationPage(ConfirmationPageMessage::CredentialsSaved),
        no_env_client(),
    );
    assert!(matches!(action, TraktAction::DoNothing));
    assert!(!wizard.has_active_setup());
}

#[test]
fn copy_and_open_actions_carry_the_code_page_values() {
    let mut wizard = TraktIntegration::new();
    wizard.update(Message::CredentialsLoaded(Credentials::default()), no_env_client());
    wizard.update(Message::StartPage(StartPageMessage::ConnectAccount), no_env_client());
    wizard.update(Message::ClientPage(ClientPageMessage::Submit), no_env_client());
    wizard.update(
        Message::ClientPage(ClientPageMessage::CodeReceived(Ok(code_response()))),
        no_env_client(),
    );

    let action = wizard.update(
        Message::ProgramAuthenticationPage(ProgramAuthenticationPageMessage::CopyCodeToClipboard),
        no_env_client(),
    );
    match action {
        TraktAction::CopyToClipboard(text) => assert_eq!(text, "USER-CODE"),
        other => panic!("expected a clipboard action, got {:?}", other),
    }

    let action = wizard.update(
        Message::ProgramAuthenticationPage(ProgramAuthenticationPageMessage::OpenVerificationUrl),
        no_env_client(),
    );
    match action {
        TraktAction::OpenUrl(url) => assert_eq!(url, "https://example.invalid/activate"),
        other => panic!("expected a browser action, got {:?}", other),
    }
}

#[test]
fn messages_for_a_page_that_is_not_open_are_ignored() {
    let mut wizard = TraktIntegration::new();
    let action = wizard.update(
        Message::ConfirmationPage(ConfirmationPageMessage::SaveCredentials),
        no_env_client(),
    );
    assert!(matches!(action, TraktAction::DoNothing));
    assert!(!wizard.has_active_setup());
}

#[test]
fn title_bar_tracks_the_selected_tab() {
    let mut bar = title_bar::TitleBar::new();
    assert_eq!(bar.active_tab(), 0);
    bar.update(title_bar::Message::TabSelected(3));
    assert_eq!(bar.active_tab(), 3);
    bar.update(title_bar::Message::BackButtonPressed);
    assert_eq!(bar.active_tab(), 3);
}
