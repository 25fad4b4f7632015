//! The third-party account-linking wizard, as a pure state machine.
//!
//! The wizard walks a user from loaded credentials through client setup,
//! device-code authentication and confirmation.  Every decision — which
//! page follows which message, and which outside work is due — is made
//! here, from the current state and the incoming message alone.  The
//! outside work itself (reading and writing the credentials file, the
//! device-code requests, the clipboard, the browser) is returned as a
//! [`TraktAction`] for the caller to perform; its outcome comes back as the
//! next message.

use vstd::prelude::*;

verus! {

/// A client registration: the application's id and secret.
#[derive(Debug)]
pub struct Client {
    pub client_id: String,
    pub client_secret: String,
}

#[verifier::ext_equal]
pub struct ClientView {
    pub client_id: Seq<char>,
    pub client_secret: Seq<char>,
}

impl View for Client {
    type V = ClientView;

    open spec fn view(&self) -> ClientView {
        ClientView { client_id: self.client_id@, client_secret: self.client_secret@ }
    }
}

impl Clone for Client {
    fn clone(&self) -> (r: Self)
        ensures
            r@ == self@,
    {
        let r = Client {
            client_id: self.client_id.clone(),
            client_secret: self.client_secret.clone(),
        };
        proof {
            assert(r@ =~= self@);
        }
        r
    }
}

/// The client registration could not be read from the environment.
#[derive(Clone, Copy, Debug, PartialEq, Eq, Structural)]
pub struct CredentialsError;

/// The device-code response: the code the program polls with, the code the
/// user types in, where to type it, and the polling window.
#[derive(Debug)]
pub struct CodeResponse {
    pub device_code: String,
    pub user_code: String,
    pub verification_url: String,
    pub expires_in: u32,
    pub interval: u32,
}

#[verifier::ext_equal]
pub struct CodeResponseView {
    pub device_code: Seq<char>,
    pub user_code: Seq<char>,
    pub verification_url: Seq<char>,
    pub expires_in: u32,
    pub interval: u32,
}

impl View for CodeResponse {
    type V = CodeResponseView;

    open spec fn view(&self) -> CodeResponseView {
        CodeResponseView {
            device_code: self.device_code@,
            user_code: self.user_code@,
            verification_url: self.verification_url@,
            expires_in: self.expires_in,
            interval: self.interval,
        }
    }
}

impl Clone for CodeResponse {
    fn clone(&self) -> (r: Self)
        ensures
            r@ == self@,
    {
        let r = CodeResponse {
            device_code: self.device_code.clone(),
            user_code: self.user_code.clone(),
            verification_url: self.verification_url.clone(),
            expires_in: self.expires_in,
            interval: self.interval,
        };
        proof {
            assert(r@ =~= self@);
        }
        r
    }
}

/// The authentication token the remote service granted.
#[derive(Debug)]
pub struct TokenResponse {
    pub access_token: String,
}

#[verifier::ext_equal]
pub struct TokenResponseView {
    pub access_token: Seq<char>,
}

impl View for TokenResponse {
    type V = TokenResponseView;

    open spec fn view(&self) -> TokenResponseView {
        TokenResponseView { access_token: self.access_token@ }
    }
}

impl Clone for TokenResponse {
    fn clone(&self) -> (r: Self)
        ensures
            r@ == self@,
    {
        let r = TokenResponse { access_token: self.access_token.clone() };
        proof {
            assert(r@ =~= self@);
        }
        r
    }
}

/// The account settings of the authenticated user.
#[derive(Debug)]
pub struct UserSettings {
    pub username: String,
}

#[verifier::ext_equal]
pub struct UserSettingsView {
    pub username: Seq<char>,
}

impl View for UserSettings {
    type V = UserSettingsView;

    open spec fn view(&self) -> UserSettingsView {
        UserSettingsView { username: self.username@ }
    }
}

impl Clone for UserSettings {
    fn clone(&self) -> (r: Self)
        ensures
            r@ == self@,
    {
        let r = UserSettings { username: self.username.clone() };
        proof {
            assert(r@ =~= self@);
        }
        r
    }
}

/// Stored account credentials: the user and the granted token, either of
/// which may be missing.
#[derive(Debug)]
pub struct Credentials {
    pub user: Option<UserSettings>,
    pub token: Option<TokenResponse>,
}

#[verifier::ext_equal]
pub struct CredentialsView {
    pub user: Option<UserSettingsView>,
    pub token: Option<TokenResponseView>,
}

impl View for Credentials {
    type V = CredentialsView;

    open spec fn view(&self) -> CredentialsView {
        CredentialsView {
            user: match self.user {
                Some(ref u) => Some(u@),
                None => None,
            },
            token: match self.token {
                Some(ref t) => Some(t@),
                None => None,
            },
        }
    }
}

impl Clone for Credentials {
    fn clone(&self) -> (r: Self)
        ensures
            r@ == self@,
    {
        let r = Credentials {
            user: match &self.user {
                Some(u) => Some(u.clone()),
                None => None,
            },
            token: match &self.token {
                Some(t) => Some(t.clone()),
                None => None,
            },
        };
        proof {
            assert(r@ =~= self@);
        }
        r
    }
}

impl Credentials {
    /// Credentials holding both a user and a token.
    pub fn new(token: TokenResponse, user: UserSettings) -> (r: Self)
        ensures
            r@ == (CredentialsView { user: Some(user@), token: Some(token@) }),
    {
        let r = Credentials { user: Some(user), token: Some(token) };
        proof {
            assert(r@ =~= (CredentialsView {
                user: Some(r.user->Some_0@),
                token: Some(r.token->Some_0@),
            }));
        }
        r
    }

    /// The user and token together, when both are present.
    pub fn get_data(&self) -> (r: Option<(&UserSettings, &TokenResponse)>)
        ensures
            match r {
                Some(pair) => self@.user == Some(pair.0@) && self@.token == Some(pair.1@),
                None => self@.user is None || self@.token is None,
            },
    {
        match (&self.user, &self.token) {
            (Some(user), Some(token)) => Some((user, token)),
            _ => None,
        }
    }
}

impl Default for Credentials {
    /// Empty credentials: no account connected.
    fn default() -> (r: Self)
        ensures
            r@ == (CredentialsView { user: None, token: None }),
    {
        Credentials { user: None, token: None }
    }
}

/// One event of the device-code authentication worker.
#[derive(Debug)]
pub enum Event {
    /// The worker is ready to take an authentication request.
    Ready,
    /// The worker finished, with a token when authentication succeeded.
    WorkFinished(Option<TokenResponse>),
    /// One polling interval elapsed.
    Progressing,
}

/// One request to the device-code authentication worker.
#[derive(Debug)]
pub enum Input {
    /// Poll the remote service with this device code on behalf of this
    /// client until a token is granted or the code expires.
    AuthenticateCode(CodeResponse, Client),
}

/// The outside work one wizard step asks its caller to perform.
#[derive(Debug)]
pub enum TraktAction {
    /// Load stored credentials from the credentials file, then send
    /// [`Message::CredentialsLoaded`] with the outcome.
    LoadCredentialsFromFile,
    /// Delete the credentials file, then send
    /// [`StartPageMessage::AccountRemoved`].
    RemoveCredentialsFile,
    /// Request a device code for this client id, then send
    /// [`ClientPageMessage::CodeReceived`] with the outcome.
    RequestDeviceCode(String),
    /// Hand this request to the authentication worker.
    SendAuthentication(Input),
    /// Fetch the account settings with this client id and access token,
    /// then send [`ProgramAuthenticationPageMessage::UserSettingsLoaded`].
    RequestUserSettings { client_id: String, access_token: String },
    /// Persist these credentials, then send
    /// [`ConfirmationPageMessage::CredentialsSaved`].
    SaveCredentials(Credentials),
    /// Put this text on the clipboard.
    CopyToClipboard(String),
    /// Open this address in the browser.
    OpenUrl(String),
    /// Nothing to perform.
    DoNothing,
}


#[verifier::ext_equal]
pub enum EventView {
    Ready,
    WorkFinished(Option<TokenResponseView>),
    Progressing,
}

impl View for Event {
    type V = EventView;

    open spec fn view(&self) -> EventView {
        match self {
            Event::Ready => EventView::Ready,
            Event::WorkFinished(Some(t)) => EventView::WorkFinished(Some(t@)),
            Event::WorkFinished(None) => EventView::WorkFinished(None),
            Event::Progressing => EventView::Progressing,
        }
    }
}

#[verifier::ext_equal]
pub enum TraktActionView {
    LoadCredentialsFromFile,
    RemoveCredentialsFile,
    RequestDeviceCode(Seq<char>),
    SendAuthentication(CodeResponseView, ClientView),
    RequestUserSettings { client_id: Seq<char>, access_token: Seq<char> },
    SaveCredentials(CredentialsView),
    CopyToClipboard(Seq<char>),
    OpenUrl(Seq<char>),
    DoNothing,
}

impl View for TraktAction {
    type V = TraktActionView;

    open spec fn view(&self) -> TraktActionView {
        match self {
            TraktAction::LoadCredentialsFromFile => TraktActionView::LoadCredentialsFromFile,
            TraktAction::RemoveCredentialsFile => TraktActionView::RemoveCredentialsFile,
            TraktAction::RequestDeviceCode(id) => TraktActionView::RequestDeviceCode(id@),
            TraktAction::SendAuthentication(Input::AuthenticateCode(code, client)) => (
            TraktActionView::SendAuthentication(code@, client@)),
            TraktAction::RequestUserSettings { client_id, access_token } => (
            TraktActionView::RequestUserSettings {
                client_id: client_id@,
                access_token: access_token@,
            }),
            TraktAction::SaveCredentials(c) => TraktActionView::SaveCredentials(c@),
            TraktAction::CopyToClipboard(text) => TraktActionView::CopyToClipboard(text@),
            TraktAction::OpenUrl(url) => TraktActionView::OpenUrl(url@),
            TraktAction::DoNothing => TraktActionView::DoNothing,
        }
    }
}

/// The first wizard page: the state of the connected account, with the
/// choice to connect anew or remove it.
#[derive(Debug)]
pub struct StartPage {
    credentials: Credentials,
}

#[verifier::ext_equal]
pub struct StartPageView {
    pub credentials: CredentialsView,
}

impl View for StartPage {
    type V = StartPageView;

    closed spec fn view(&self) -> StartPageView {
        StartPageView { credentials: self.credentials@ }
    }
}

impl StartPage {
    /// Opens the start page over the loaded credentials.
    pub fn new(credentials: Credentials) -> (r: Self)
        ensures
            r@ == (StartPageView { credentials: credentials@ }),
    {
        StartPage { credentials }
    }
}

/// The client-setup page: the registration loaded from the environment when
/// one exists, and the manually typed id and secret otherwise.
#[derive(Debug)]
pub struct ClientPage {
    client: Result<Client, CredentialsError>,
    client_id: String,
    client_secret: String,
    show_client_id: bool,
    show_client_secret: bool,
    show_client_information: bool,
    code_loading: bool,
    response_error: Option<String>,
}

#[verifier::ext_equal]
pub struct ClientPageView {
    pub client: Option<ClientView>,
    pub client_id: Seq<char>,
    pub client_secret: Seq<char>,
    pub show_client_id: bool,
    pub show_client_secret: bool,
    pub show_client_information: bool,
    pub code_loading: bool,
    pub response_error: Option<Seq<char>>,
}

impl View for ClientPage {
    type V = ClientPageView;

    closed spec fn view(&self) -> ClientPageView {
        ClientPageView {
            client: match self.client {
                Ok(ref c) => Some(c@),
                Err(_) => None,
            },
            client_id: self.client_id@,
            client_secret: self.client_secret@,
            show_client_id: self.show_client_id,
            show_client_secret: self.show_client_secret,
            show_client_information: self.show_client_information,
            code_loading: self.code_loading,
            response_error: match self.response_error {
                Some(ref e) => Some(e@),
                None => None,
            },
        }
    }
}

/// The fresh client page over an environment-loaded registration.
pub open spec fn spec_fresh_client_page(env_client: Option<ClientView>) -> ClientPageView {
    ClientPageView {
        client: env_client,
        client_id: Seq::<char>::empty(),
        client_secret: Seq::<char>::empty(),
        show_client_id: false,
        show_client_secret: false,
        show_client_information: false,
        code_loading: false,
        response_error: None,
    }
}

impl ClientPage {
    /// Opens the client page; the environment-loaded registration, when the
    /// caller found one, pre-fills it.
    pub fn new(client: Result<Client, CredentialsError>) -> (r: Self)
        ensures
            r@ == spec_fresh_client_page(spec_env_client_view(client)),
    {
        let r = ClientPage {
            client,
            client_id: String::new(),
            client_secret: String::new(),
            show_client_id: false,
            show_client_secret: false,
            show_client_information: false,
            code_loading: false,
            response_error: None,
        };
        proof {
            assert(r@ =~= spec_fresh_client_page(spec_env_client_view(r.client)));
        }
        r
    }
}

/// What the environment offered as client registration, at the spec level.
pub open spec fn spec_env_client_view(e: Result<Client, CredentialsError>) -> Option<ClientView> {
    match e {
        Ok(c) => Some(c@),
        Err(_) => None,
    }
}

/// The device-code page: the code being authenticated, a countdown to its
/// expiry, and the token once granted.
#[derive(Debug)]
pub struct ProgramAuthenticationPage {
    code: CodeResponse,
    client: Client,
    count_down: u32,
    token_response: Option<TokenResponse>,
    token_response_loaded: bool,
}

#[verifier::ext_equal]
pub struct ProgramAuthenticationPageView {
    pub code: CodeResponseView,
    pub client: ClientView,
    pub count_down: u32,
    pub token_response: Option<TokenResponseView>,
    pub token_response_loaded: bool,
}

impl View for ProgramAuthenticationPage {
    type V = ProgramAuthenticationPageView;

    closed spec fn view(&self) -> ProgramAuthenticationPageView {
        ProgramAuthenticationPageView {
            code: self.code@,
            client: self.client@,
            count_down: self.count_down,
            token_response: match self.token_response {
                Some(ref t) => Some(t@),
                None => None,
            },
            token_response_loaded: self.token_response_loaded,
        }
    }
}

impl ProgramAuthenticationPage {
    /// Opens the authentication page; the countdown starts at the code's
    /// expiry window.
    pub fn new(code_response: CodeResponse, client: Client) -> (r: Self)
        ensures
            r@ == (ProgramAuthenticationPageView {
                code: code_response@,
                client: client@,
                count_down: code_response@.expires_in,
                token_response: None,
                token_response_loaded: false,
            }),
    {
        let count_down = code_response.expires_in;
        let r = ProgramAuthenticationPage {
            code: code_response,
            client,
            count_down,
            token_response: None,
            token_response_loaded: false,
        };
        proof {
            assert(r@ =~= (ProgramAuthenticationPageView {
                code: r.code@,
                client: r.client@,
                count_down: r.code@.expires_in,
                token_response: None,
                token_response_loaded: false,
            }));
        }
        r
    }
}

/// The confirmation page: the granted token and the fetched account
/// settings, awaiting the user's confirmation to save them.
#[derive(Debug)]
pub struct ConfirmationPage {
    token_response: TokenResponse,
    user_settings: UserSettings,
}

#[verifier::ext_equal]
pub struct ConfirmationPageView {
    pub token_response: TokenResponseView,
    pub user_settings: UserSettingsView,
}

impl View for ConfirmationPage {
    type V = ConfirmationPageView;

    closed spec fn view(&self) -> ConfirmationPageView {
        ConfirmationPageView { token_response: self.token_response@, user_settings: self.user_settings@ }
    }
}

impl ConfirmationPage {
    /// Opens the confirmation page over the granted token and the fetched
    /// settings.
    pub fn new(token_response: TokenResponse, user_settings: UserSettings) -> (r: Self)
        ensures
            r@ == (ConfirmationPageView {
                token_response: token_response@,
                user_settings: user_settings@,
            }),
    {
        ConfirmationPage { token_response, user_settings }
    }
}

/// One wizard page, with its state.
#[derive(Debug)]
pub enum SetupStep {
    Start(StartPage),
    Client(ClientPage),
    ProgramAuthentication(ProgramAuthenticationPage),
    Confirmation(ConfirmationPage),
}

#[verifier::ext_equal]
pub enum SetupStepView {
    Start(StartPageView),
    Client(ClientPageView),
    ProgramAuthentication(ProgramAuthenticationPageView),
    Confirmation(ConfirmationPageView),
}

impl View for SetupStep {
    type V = SetupStepView;

    open spec fn view(&self) -> SetupStepView {
        match self {
            SetupStep::Start(p) => SetupStepView::Start(p@),
            SetupStep::Client(p) => SetupStepView::Client(p@),
            SetupStep::ProgramAuthentication(p) => SetupStepView::ProgramAuthentication(p@),
            SetupStep::Confirmation(p) => SetupStepView::Confirmation(p@),
        }
    }
}

/// A message of the start page.
#[derive(Clone, Copy, Debug, PartialEq, Eq, Structural)]
pub enum StartPageMessage {
    ConnectAccount,
    RemoveAccount,
    AccountRemoved,
}

/// A message of the client-setup page.
#[derive(Debug)]
pub enum ClientPageMessage {
    ClientIdChanged(String),
    ClientSecretChanged(String),
    CodeReceived(Result<CodeResponse, String>),
    ToggleClientIdView,
    ToggleClientSecretView,
    ToggleClientInformation,
    Submit,
}

#[verifier::ext_equal]
pub enum ClientPageMessageView {
    ClientIdChanged(Seq<char>),
    ClientSecretChanged(Seq<char>),
    CodeReceived(Result<CodeResponseView, Seq<char>>),
    ToggleClientIdView,
    ToggleClientSecretView,
    ToggleClientInformation,
    Submit,
}

impl View for ClientPageMessage {
    type V = ClientPageMessageView;

    open spec fn view(&self) -> ClientPageMessageView {
        match self {
            ClientPageMessage::ClientIdChanged(text) => ClientPageMessageView::ClientIdChanged(
                text@,
            ),
            ClientPageMessage::ClientSecretChanged(text) => (
            ClientPageMessageView::ClientSecretChanged(text@)),
            ClientPageMessage::CodeReceived(Ok(code)) => ClientPageMessageView::CodeReceived(
                Ok(code@),
            ),
            ClientPageMessage::CodeReceived(Err(e)) => ClientPageMessageView::CodeReceived(
                Err(e@),
            ),
            ClientPageMessage::ToggleClientIdView => ClientPageMessageView::ToggleClientIdView,
            ClientPageMessage::ToggleClientSecretView => (
            ClientPageMessageView::ToggleClientSecretView),
            ClientPageMessage::ToggleClientInformation => (
            ClientPageMessageView::ToggleClientInformation),
            ClientPageMessage::Submit => ClientPageMessageView::Submit,
        }
    }
}

/// A message of the device-code authentication page.
#[derive(Debug)]
pub enum ProgramAuthenticationPageMessage {
    AuthenticationEvent(Event),
    UserSettingsLoaded(UserSettings),
    CopyCodeToClipboard,
    OpenVerificationUrl,
}

#[verifier::ext_equal]
pub enum ProgramAuthenticationPageMessageView {
    AuthenticationEvent(EventView),
    UserSettingsLoaded(UserSettingsView),
    CopyCodeToClipboard,
    OpenVerificationUrl,
}

impl View for ProgramAuthenticationPageMessage {
    type V = ProgramAuthenticationPageMessageView;

    open spec fn view(&self) -> ProgramAuthenticationPageMessageView {
        match self {
            ProgramAuthenticationPageMessage::AuthenticationEvent(e) => (
            ProgramAuthenticationPageMessageView::AuthenticationEvent(e@)),
            ProgramAuthenticationPageMessage::UserSettingsLoaded(u) => (
            ProgramAuthenticationPageMessageView::UserSettingsLoaded(u@)),
            ProgramAuthenticationPageMessage::CopyCodeToClipboard => (
            ProgramAuthenticationPageMessageView::CopyCodeToClipboard),
            ProgramAuthenticationPageMessage::OpenVerificationUrl => (
            ProgramAuthenticationPageMessageView::OpenVerificationUrl),
        }
    }
}

/// A message of the confirmation page.
#[derive(Clone, Copy, Debug, PartialEq, Eq, Structural)]
pub enum ConfirmationPageMessage {
    SaveCredentials,
    CredentialsSaved,
}

/// A message of the wizard.
#[derive(Debug)]
pub enum Message {
    StartPage(StartPageMessage),
    ClientPage(ClientPageMessage),
    ProgramAuthenticationPage(ProgramAuthenticationPageMessage),
    ConfirmationPage(ConfirmationPageMessage),
    LoadCredentials,
    CredentialsLoaded(Credentials),
    Cancel,
}

#[verifier::ext_equal]
pub enum MessageView {
    StartPage(StartPageMessage),
    ClientPage(ClientPageMessageView),
    ProgramAuthenticationPage(ProgramAuthenticationPageMessageView),
    ConfirmationPage(ConfirmationPageMessage),
    LoadCredentials,
    CredentialsLoaded(CredentialsView),
    Cancel,
}

impl View for Message {
    type V = MessageView;

    open spec fn view(&self) -> MessageView {
        match self {
            Message::StartPage(m) => MessageView::StartPage(*m),
            Message::ClientPage(m) => MessageView::ClientPage(m@),
            Message::ProgramAuthenticationPage(m) => MessageView::ProgramAuthenticationPage(m@),
            Message::ConfirmationPage(m) => MessageView::ConfirmationPage(*m),
            Message::LoadCredentials => MessageView::LoadCredentials,
            Message::CredentialsLoaded(c) => MessageView::CredentialsLoaded(c@),
            Message::Cancel => MessageView::Cancel,
        }
    }
}


/// The one step relation of the wizard: from the current page and the
/// incoming message to the next page and the outside work due.
/// `env_client` is the client registration the caller found in the
/// environment, consulted when the client page opens.
pub open spec fn spec_wizard_step(
    state: Option<SetupStepView>,
    message: MessageView,
    env_client: Option<ClientView>,
) -> (Option<SetupStepView>, TraktActionView) {
    match message {
        MessageView::LoadCredentials => (state, TraktActionView::LoadCredentialsFromFile),
        MessageView::CredentialsLoaded(c) => (
            Some(SetupStepView::Start(StartPageView { credentials: c })),
            TraktActionView::DoNothing,
        ),
        MessageView::Cancel => (None, TraktActionView::DoNothing),
        MessageView::StartPage(m) => match state {
            Some(SetupStepView::Start(_)) => match m {
                StartPageMessage::ConnectAccount => (
                    Some(SetupStepView::Client(spec_fresh_client_page(env_client))),
                    TraktActionView::DoNothing,
                ),
                StartPageMessage::RemoveAccount => (state, TraktActionView::RemoveCredentialsFile),
                StartPageMessage::AccountRemoved => (None, TraktActionView::DoNothing),
            },
            _ => (state, TraktActionView::DoNothing),
        },
        MessageView::ClientPage(m) => match state {
            Some(SetupStepView::Client(p)) => match m {
                ClientPageMessageView::ClientIdChanged(text) => (
                    Some(SetupStepView::Client(ClientPageView { client_id: text, ..p })),
                    TraktActionView::DoNothing,
                ),
                ClientPageMessageView::ClientSecretChanged(text) => (
                    Some(SetupStepView::Client(ClientPageView { client_secret: text, ..p })),
                    TraktActionView::DoNothing,
                ),
                ClientPageMessageView::Submit => (
                    Some(SetupStepView::Client(ClientPageView { code_loading: true, ..p })),
                    TraktActionView::RequestDeviceCode(
                        match p.client {
                            Some(c) => c.client_id,
                            None => p.client_id,
                        },
                    ),
                ),
                ClientPageMessageView::CodeReceived(Ok(code)) => (
                    Some(
                        SetupStepView::ProgramAuthentication(
                            ProgramAuthenticationPageView {
                                code: code,
                                client: match p.client {
                                    Some(c) => c,
                                    None => ClientView {
                                        client_id: p.client_id,
                                        client_secret: p.client_secret,
                                    },
                                },
                                count_down: code.expires_in,
                                token_response: None,
                                token_response_loaded: false,
                            },
                        ),
                    ),
                    TraktActionView::DoNothing,
                ),
                ClientPageMessageView::CodeReceived(Err(e)) => (
                    Some(SetupStepView::Client(ClientPageView { response_error: Some(e), ..p })),
                    TraktActionView::DoNothing,
                ),
                ClientPageMessageView::ToggleClientIdView => (
                    Some(
                        SetupStepView::Client(
                            ClientPageView { show_client_id: !p.show_client_id, ..p },
                        ),
                    ),
                    TraktActionView::DoNothing,
                ),
                ClientPageMessageView::ToggleClientSecretView => (
                    Some(
                        SetupStepView::Client(
                            ClientPageView { show_client_secret: !p.show_client_secret, ..p },
                        ),
                    ),
                    TraktActionView::DoNothing,
                ),
                ClientPageMessageView::ToggleClientInformation => (
                    Some(
                        SetupStepView::Client(
                            ClientPageView {
                                show_client_information: !p.show_client_information,
                                ..p
                            },
                        ),
                    ),
                    TraktActionView::DoNothing,
                ),
            },
            _ => (state, TraktActionView::DoNothing),
        },
        MessageView::ProgramAuthenticationPage(m) => match state {
            Some(SetupStepView::ProgramAuthentication(p)) => match m {
                ProgramAuthenticationPageMessageView::AuthenticationEvent(
                    EventView::Ready,
                ) => (
                    state,
                    if !p.token_response_loaded {
                        TraktActionView::SendAuthentication(p.code, p.client)
                    } else {
                        TraktActionView::DoNothing
                    },
                ),
                ProgramAuthenticationPageMessageView::AuthenticationEvent(
                    EventView::WorkFinished(Some(t)),
                ) => (
                    Some(
                        SetupStepView::ProgramAuthentication(
                            ProgramAuthenticationPageView {
                                token_response: Some(t),
                                token_response_loaded: true,
                                ..p
                            },
                        ),
                    ),
                    TraktActionView::RequestUserSettings {
                        client_id: p.client.client_id,
                        access_token: t.access_token,
                    },
                ),
                ProgramAuthenticationPageMessageView::AuthenticationEvent(
                    EventView::WorkFinished(None),
                ) => (
                    Some(
                        SetupStepView::ProgramAuthentication(
                            ProgramAuthenticationPageView { token_response_loaded: true, ..p },
                        ),
                    ),
                    TraktActionView::DoNothing,
                ),
                ProgramAuthenticationPageMessageView::AuthenticationEvent(
                    EventView::Progressing,
                ) => (
                    Some(
                        SetupStepView::ProgramAuthentication(
                            ProgramAuthenticationPageView {
                                count_down: (if p.code.interval > p.count_down {
                                    0
                                } else {
                                    (p.count_down - p.code.interval) as u32
                                }),
                                ..p
                            },
                        ),
                    ),
                    TraktActionView::DoNothing,
                ),
                ProgramAuthenticationPageMessageView::CopyCodeToClipboard => (
                    state,
                    TraktActionView::CopyToClipboard(p.code.user_code),
                ),
                ProgramAuthenticationPageMessageView::OpenVerificationUrl => (
                    state,
                    TraktActionView::OpenUrl(p.code.verification_url),
                ),
                ProgramAuthenticationPageMessageView::UserSettingsLoaded(u) => match p
                    .token_response {
                    Some(t) => (
                        Some(
                            SetupStepView::Confirmation(
                                ConfirmationPageView { token_response: t, user_settings: u },
                            ),
                        ),
                        TraktActionView::DoNothing,
                    ),
                    None => (state, TraktActionView::DoNothing),
                },
            },
            _ => (state, TraktActionView::DoNothing),
        },
        MessageView::ConfirmationPage(m) => match state {
            Some(SetupStepView::Confirmation(p)) => match m {
                ConfirmationPageMessage::SaveCredentials => (
                    state,
                    TraktActionView::SaveCredentials(
                        CredentialsView { user: Some(p.user_settings), token: Some(p.token_response) },
                    ),
                ),
                ConfirmationPageMessage::CredentialsSaved => (None, TraktActionView::DoNothing),
            },
            _ => (state, TraktActionView::DoNothing),
        },
    }
}

/// The account-linking wizard: at most one open setup page.
pub struct TraktIntegration {
    setup_page: Option<SetupStep>,
}

impl View for TraktIntegration {
    type V = Option<SetupStepView>;

    closed spec fn view(&self) -> Option<SetupStepView> {
        match self.setup_page {
            Some(ref step) => Some(step@),
            None => None,
        }
    }
}

impl TraktIntegration {
    /// A closed wizard: no setup page is open.
    pub fn new() -> (r: Self)
        ensures
            r@ is None,
    {
        TraktIntegration { setup_page: None }
    }

    /// Whether a setup page is open.
    pub fn has_active_setup(&self) -> (r: bool)
        ensures
            r == self@ is Some,
    {
        match &self.setup_page {
            Some(_) => true,
            None => false,
        }
    }

    /// The seconds left before the device code expires, while the
    /// authentication page is open.
    pub fn authentication_count_down(&self) -> (r: Option<u32>)
        ensures
            match self@ {
                Some(SetupStepView::ProgramAuthentication(p)) => r == Some(p.count_down),
                _ => r is None,
            },
    {
        match &self.setup_page {
            Some(SetupStep::ProgramAuthentication(page)) => Some(page.count_down),
            _ => None,
        }
    }

    /// Applies one message to the wizard and returns the outside work due;
    /// the step taken is exactly [`spec_wizard_step`].  A message for a
    /// page that is not the open one is ignored, and a granted-settings
    /// message with no token yet is ignored rather than aborting.
    pub fn update(&mut self, message: Message, env_client: Result<Client, CredentialsError>) -> (r:
        TraktAction)
        ensures
            ({
                let step = spec_wizard_step(
                    old(self)@,
                    message@,
                    spec_env_client_view(env_client),
                );
                final(self)@ == step.0 && r@ == step.1
            }),
    {
        let current = self.setup_page.take();
        match (current, message) {
            (cur, Message::LoadCredentials) => {
                self.setup_page = cur;
                TraktAction::LoadCredentialsFromFile
            },
            (_, Message::CredentialsLoaded(credentials)) => {
                self.setup_page = Some(SetupStep::Start(StartPage::new(credentials)));
                TraktAction::DoNothing
            },
            (_, Message::Cancel) => {
                self.setup_page = None;
                TraktAction::DoNothing
            },
            (Some(SetupStep::Start(page)), Message::StartPage(m)) => match m {
                StartPageMessage::ConnectAccount => {
                    self.setup_page = Some(SetupStep::Client(ClientPage::new(env_client)));
                    TraktAction::DoNothing
                },
                StartPageMessage::RemoveAccount => {
                    self.setup_page = Some(SetupStep::Start(page));
                    TraktAction::RemoveCredentialsFile
                },
                StartPageMessage::AccountRemoved => {
                    self.setup_page = None;
                    TraktAction::DoNothing
                },
            },
            (Some(SetupStep::Client(mut page)), Message::ClientPage(m)) => match m {
                ClientPageMessage::ClientIdChanged(text) => {
                    page.client_id = text;
                    self.setup_page = Some(SetupStep::Client(page));
                    TraktAction::DoNothing
                },
                ClientPageMessage::ClientSecretChanged(text) => {
                    page.client_secret = text;
                    self.setup_page = Some(SetupStep::Client(page));
                    TraktAction::DoNothing
                },
                ClientPageMessage::Submit => {
                    page.code_loading = true;
                    let client_id = match &page.client {
                        Ok(client) => client.client_id.clone(),
                        Err(_) => page.client_id.clone(),
                    };
                    self.setup_page = Some(SetupStep::Client(page));
                    TraktAction::RequestDeviceCode(client_id)
                },
                ClientPageMessage::CodeReceived(Ok(code)) => {
                    let client = match &page.client {
                        Ok(client) => client.clone(),
                        Err(_) => Client {
                            client_id: page.client_id.clone(),
                            client_secret: page.client_secret.clone(),
                        },
                    };
                    self.setup_page = Some(
                        SetupStep::ProgramAuthentication(
                            ProgramAuthenticationPage::new(code, client),
                        ),
                    );
                    TraktAction::DoNothing
                },
                ClientPageMessage::CodeReceived(Err(e)) => {
                    page.response_error = Some(e);
                    self.setup_page = Some(SetupStep::Client(page));
                    TraktAction::DoNothing
                },
                ClientPageMessage::ToggleClientIdView => {
                    page.show_client_id = !page.show_client_id;
                    self.setup_page = Some(SetupStep::Client(page));
                    TraktAction::DoNothing
                },
                ClientPageMessage::ToggleClientSecretView => {
                    page.show_client_secret = !page.show_client_secret;
                    self.setup_page = Some(SetupStep::Client(page));
                    TraktAction::DoNothing
                },
                ClientPageMessage::ToggleClientInformation => {
                    page.show_client_information = !page.show_client_information;
                    self.setup_page = Some(SetupStep::Client(page));
                    TraktAction::DoNothing
                },
            },
            (
                Some(SetupStep::ProgramAuthentication(mut page)),
                Message::ProgramAuthenticationPage(m),
            ) => match m {
                ProgramAuthenticationPageMessage::AuthenticationEvent(Event::Ready) => {
                    let action = if !page.token_response_loaded {
                        TraktAction::SendAuthentication(
                            Input::AuthenticateCode(page.code.clone(), page.client.clone()),
                        )
                    } else {
                        TraktAction::DoNothing
                    };
                    self.setup_page = Some(SetupStep::ProgramAuthentication(page));
                    action
                },
                ProgramAuthenticationPageMessage::AuthenticationEvent(
                    Event::WorkFinished(Some(token)),
                ) => {
                    page.token_response_loaded = true;
                    let action = TraktAction::RequestUserSettings {
                        client_id: page.client.client_id.clone(),
                        access_token: token.access_token.clone(),
                    };
                    page.token_response = Some(token);
                    self.setup_page = Some(SetupStep::ProgramAuthentication(page));
                    action
                },
                ProgramAuthenticationPageMessage::AuthenticationEvent(
                    Event::WorkFinished(None),
                ) => {
                    page.token_response_loaded = true;
                    self.setup_page = Some(SetupStep::ProgramAuthentication(page));
                    TraktAction::DoNothing
                },
                ProgramAuthenticationPageMessage::AuthenticationEvent(Event::Progressing) => {
                    page.count_down = if page.code.interval > page.count_down {
                        0
                    } else {
                        page.count_down - page.code.interval
                    };
                    self.setup_page = Some(SetupStep::ProgramAuthentication(page));
                    TraktAction::DoNothing
                },
                ProgramAuthenticationPageMessage::CopyCodeToClipboard => {
                    let action = TraktAction::CopyToClipboard(page.code.user_code.clone());
                    self.setup_page = Some(SetupStep::ProgramAuthentication(page));
                    action
                },
                ProgramAuthenticationPageMessage::OpenVerificationUrl => {
                    let action = TraktAction::OpenUrl(page.code.verification_url.clone());
                    self.setup_page = Some(SetupStep::ProgramAuthentication(page));
                    action
                },
                ProgramAuthenticationPageMessage::UserSettingsLoaded(user_settings) => {
                    match &page.token_response {
                        Some(token) => {
                            let token = token.clone();
                            self.setup_page = Some(
                                SetupStep::Confirmation(
                                    ConfirmationPage::new(token, user_settings),
                                ),
                            );
                            TraktAction::DoNothing
                        },
                        None => {
                            self.setup_page = Some(SetupStep::ProgramAuthentication(page));
                            TraktAction::DoNothing
                        },
                    }
                },
            },
            (Some(SetupStep::Confirmation(page)), Message::ConfirmationPage(m)) => match m {
                ConfirmationPageMessage::SaveCredentials => {
                    let credentials = Credentials::new(
                        page.token_response.clone(),
                        page.user_settings.clone(),
                    );
                    self.setup_page = Some(SetupStep::Confirmation(page));
                    TraktAction::SaveCredentials(credentials)
                },
                ConfirmationPageMessage::CredentialsSaved => {
                    self.setup_page = None;
                    TraktAction::DoNothing
                },
            },
            (cur, _) => {
                self.setup_page = cur;
                TraktAction::DoNothing
            },
        }
    }
}

} // verus!
