//! The whole application as it is driven from outside: the conversation
//! page, the list of characters to choose from, the settings switch, and the
//! error that is shown for a while.

use crate::chat::greeting_messages;
use crate::chat_page::{
    chat_after, input_after, task_after, ChatCommand, ChatPage, ChatTask, ChatTaskView,
};
use crate::persona::{CharData, Persona};
use crate::tree::Level;
use vstd::prelude::*;

verus! {

/// A command on the application.
#[derive(Debug)]
pub enum AppCommand {
    /// A command on the conversation.
    ChatCommand(ChatCommand),
    /// Open or close the list of characters.
    ToggleChars,
    /// The characters to choose from have been loaded.
    CharsLoaded(Vec<Persona>),
    /// Talk to the character with this number in the list.
    SelectedChar(usize),
    /// Open or close the settings.
    ToggleSettings,
    /// Something went wrong outside, as when the backend fails in the
    /// middle of an answer.
    Error(String),
    /// The error has been shown for long enough.
    DismissError,
}

/// What has to be done after a command on the application.
#[derive(Debug)]
pub enum AppTask {
    /// Nothing.
    Idle,
    /// What the conversation asks for.
    Chat(ChatTask),
    /// Load the characters to choose from and give them as `CharsLoaded`.
    LoadChars,
    /// Give the command `DismissError` when the error has been shown for a
    /// while.
    DismissLater,
}

/// The list of characters to choose from.
pub struct CharSelectorPage {
    chars: Vec<Persona>,
}

impl View for CharSelectorPage {
    type V = Seq<Persona>;

    closed spec fn view(&self) -> Seq<Persona> {
        self.chars@
    }
}

impl CharSelectorPage {
    /// The list of the given characters.
    pub fn new(chars: Vec<Persona>) -> (page: CharSelectorPage)
        ensures
            page@ == chars@,
    {
        CharSelectorPage { chars }
    }

    /// How many characters there are.
    pub fn len(&self) -> (n: usize)
        ensures
            n == self@.len(),
    {
        self.chars.len()
    }

    /// The characters, to read them.
    pub fn chars(&self) -> (chars: &Vec<Persona>)
        ensures
            chars@ == self@,
    {
        &self.chars
    }

    /// A copy of the character with the number `idx`: it tells the same as
    /// the one in the list.
    pub fn get(&self, idx: usize) -> (persona: Persona)
        requires
            idx < self@.len(),
        ensures
            persona.name_view() == self@[idx as int].name_view(),
            persona.description_view() == self@[idx as int].description_view(),
            persona.avatar_view() == self@[idx as int].avatar_view(),
            forall|partner: Option<Seq<char>>|
                #![trigger persona.system_prompt_view(partner)]
                persona.system_prompt_view(partner) == self@[idx as int].system_prompt_view(
                    partner,
                ),
            forall|partner: Option<Seq<char>>|
                #![trigger persona.greetings_view(partner)]
                persona.greetings_view(partner) == self@[idx as int].greetings_view(partner),
    {
        self.chars[idx].clone()
    }
}

/// The application.
pub struct App {
    chat_page: ChatPage,
    char_selector_page: Option<CharSelectorPage>,
    show_settings: bool,
    error: Option<String>,
}

impl App {
    /// The conversation page.
    pub closed spec fn page_view(&self) -> ChatPage {
        self.chat_page
    }

    /// The characters to choose from, while their list is open.
    pub closed spec fn chars_view(&self) -> Option<Seq<Persona>> {
        match self.char_selector_page {
            Some(page) => Some(page@),
            None => None,
        }
    }

    /// Whether the settings are open.
    pub closed spec fn settings_shown(&self) -> bool {
        self.show_settings
    }

    /// The error that is shown, if there is one.
    pub closed spec fn error_view(&self) -> Option<Seq<char>> {
        match self.error {
            Some(text) => Some(text@),
            None => None,
        }
    }

    /// The conversation page is well formed.
    pub open spec fn wf(&self) -> bool {
        self.page_view().wf()
    }

    /// The application with the given conversation page: nothing else is
    /// open, and no error is shown.
    pub fn new(chat_page: ChatPage) -> (app: App)
        requires
            chat_page.wf(),
        ensures
            app.wf(),
            app.page_view() == chat_page,
            app.chars_view() is None,
            !app.settings_shown(),
            app.error_view() is None,
    {
        App { chat_page, char_selector_page: None, show_settings: false, error: None }
    }

    /// The conversation page, to read it.
    pub fn chat_page(&self) -> (page: &ChatPage)
        ensures
            *page == self.page_view(),
    {
        &self.chat_page
    }

    /// The list of characters, while it is open.
    pub fn char_selector_page(&self) -> (page: &Option<CharSelectorPage>)
        ensures
            self.chars_view() == (match *page {
                Some(list) => Some(list@),
                None => None,
            }),
    {
        &self.char_selector_page
    }

    /// Whether the settings are open.
    pub fn show_settings(&self) -> (shown: bool)
        ensures
            shown == self.settings_shown(),
    {
        self.show_settings
    }

    /// The error that is shown, if there is one.
    pub fn error(&self) -> (error: &Option<String>)
        ensures
            self.error_view() == (match *error {
                Some(text) => Some(text@),
                None => None,
            }),
    {
        &self.error
    }

    /// Carries out one command and says what has to be done next.
    ///
    /// A command on the conversation goes to the conversation page; where
    /// the page reports an error, the error is shown as below. The list of
    /// characters is closed if it is open; else it is asked for, and
    /// opens when it has been loaded. Choosing a character from the open list
    /// starts a new conversation with it; a number that the list does not
    /// have changes nothing. An error is shown until it is dismissed, which
    /// is asked for at once; the conversation keeps what it holds.
    pub fn update(&mut self, message: AppCommand) -> (task: AppTask)
        requires
            old(self).wf(),
        ensures
            final(self).wf(),
            match message {
                AppCommand::ChatCommand(command) => {
                    &&& final(self).page_view().chat_view() == chat_after(
                        old(self).page_view().chat_view(),
                        old(self).page_view().input_view(),
                        command@,
                    )
                    &&& final(self).page_view().input_view() == input_after(
                        old(self).page_view().input_view(),
                        command@,
                    )
                    &&& final(self).page_view().char_view() == old(self).page_view().char_view()
                    &&& final(self).page_view().user_view() == old(self).page_view().user_view()
                    &&& match task_after(old(self).page_view().chat_view(), command@) {
                        ChatTaskView::Report(error) => {
                            &&& task is DismissLater
                            &&& final(self).error_view() == Some(error.description())
                        },
                        other => {
                            &&& task matches AppTask::Chat(inner) && inner@ == other
                            &&& final(self).error_view() == old(self).error_view()
                        },
                    }
                    &&& final(self).chars_view() == old(self).chars_view()
                    &&& final(self).settings_shown() == old(self).settings_shown()
                },
                AppCommand::ToggleChars => {
                    &&& final(self).page_view() == old(self).page_view()
                    &&& final(self).chars_view() is None
                    &&& task is LoadChars <==> old(self).chars_view() is None
                    &&& task is Idle <==> old(self).chars_view() is Some
                    &&& final(self).settings_shown() == old(self).settings_shown()
                    &&& final(self).error_view() == old(self).error_view()
                },
                AppCommand::CharsLoaded(list) => {
                    &&& final(self).page_view() == old(self).page_view()
                    &&& final(self).chars_view() == Some(list@)
                    &&& task is Idle
                    &&& final(self).settings_shown() == old(self).settings_shown()
                    &&& final(self).error_view() == old(self).error_view()
                },
                AppCommand::SelectedChar(idx) => {
                    &&& match old(self).chars_view() {
                        Some(list) if idx < list.len() => {
                            &&& final(self).page_view().char_view().name_view()
                                == list[idx as int].name_view()
                            &&& final(self).page_view().chat_view() == Level::seeded(
                                greeting_messages(
                                    list[idx as int].greetings_view(
                                        Some(old(self).page_view().user_view().name_view()),
                                    ),
                                ),
                            )
                            &&& final(self).page_view().input_view()
                                == old(self).page_view().input_view()
                            &&& final(self).page_view().user_view()
                                == old(self).page_view().user_view()
                        },
                        _ => final(self).page_view() == old(self).page_view(),
                    }
                    &&& task is Idle
                    &&& final(self).chars_view() == old(self).chars_view()
                    &&& final(self).settings_shown() == old(self).settings_shown()
                    &&& final(self).error_view() == old(self).error_view()
                },
                AppCommand::ToggleSettings => {
                    &&& final(self).page_view() == old(self).page_view()
                    &&& final(self).settings_shown() == !old(self).settings_shown()
                    &&& task is Idle
                    &&& final(self).chars_view() == old(self).chars_view()
                    &&& final(self).error_view() == old(self).error_view()
                },
                AppCommand::Error(text) => {
                    &&& final(self).page_view() == old(self).page_view()
                    &&& final(self).error_view() == Some(text@)
                    &&& task is DismissLater
                    &&& final(self).chars_view() == old(self).chars_view()
                    &&& final(self).settings_shown() == old(self).settings_shown()
                },
                AppCommand::DismissError => {
                    &&& final(self).page_view() == old(self).page_view()
                    &&& final(self).error_view() is None
                    &&& task is Idle
                    &&& final(self).chars_view() == old(self).chars_view()
                    &&& final(self).settings_shown() == old(self).settings_shown()
                },
            },
    {
        match message {
            AppCommand::ChatCommand(chat_command) => {
                match self.chat_page.update(chat_command) {
                    ChatTask::Report(error) => {
                        self.error = Some(error.describe());
                        AppTask::DismissLater
                    },
                    task => AppTask::Chat(task),
                }
            },
            AppCommand::ToggleChars => {
                match self.char_selector_page.take() {
                    Some(_) => AppTask::Idle,
                    None => AppTask::LoadChars,
                }
            },
            AppCommand::CharsLoaded(list) => {
                self.char_selector_page = Some(CharSelectorPage::new(list));
                AppTask::Idle
            },
            AppCommand::SelectedChar(char_idx) => {
                match &self.char_selector_page {
                    Some(csp) => {
                        if char_idx < csp.len() {
                            let chosen = csp.get(char_idx);
                            self.chat_page.set_char(chosen);
                        }
                    },
                    None => {},
                }
                AppTask::Idle
            },
            AppCommand::ToggleSettings => {
                self.show_settings = !self.show_settings;
                AppTask::Idle
            },
            AppCommand::Error(e) => {
                self.error = Some(e);
                AppTask::DismissLater
            },
            AppCommand::DismissError => {
                self.error = None;
                AppTask::Idle
            },
        }
    }
}

} // verus!
