//! The two sides of a conversation: who they are, what the backend is told
//! about them, and how a conversation with them opens.

use crate::backend::{
    assistant_chat_message, build_assistant_message, build_user_message, user_chat_message,
};
use crate::text::{replace, replaced};
use llm::chat::ChatMessage;
use vstd::prelude::*;

verus! {

/// The placeholder for the name of the one who speaks: `{{char}}`.
pub open spec fn char_placeholder() -> Seq<char> {
    seq!['{', '{', 'c', 'h', 'a', 'r', '}', '}']
}

/// The placeholder for the name of the one spoken to: `{{user}}`.
pub open spec fn user_placeholder() -> Seq<char> {
    seq!['{', '{', 'u', 's', 'e', 'r', '}', '}']
}

/// `s` with the speaker's placeholder replaced by `self_name` and then, where
/// the partner is known, the partner's placeholder by the partner's name.
pub open spec fn names_replaced(
    s: Seq<char>,
    self_name: Seq<char>,
    partner_name: Option<Seq<char>>,
) -> Seq<char> {
    let with_self = replaced(s, char_placeholder(), self_name);
    match partner_name {
        Some(name) => replaced(with_self, user_placeholder(), name),
        None => with_self,
    }
}

/// The partner's name as a mathematical value.
pub open spec fn name_view(name: Option<&str>) -> Option<Seq<char>> {
    match name {
        Some(n) => Some(n@),
        None => None,
    }
}

/// The texts of a list of strings, one for one.
pub open spec fn texts_of(strings: Seq<String>) -> Seq<Seq<char>> {
    Seq::new(strings.len(), |i: int| strings[i]@)
}

/// Each text with the placeholders replaced.
pub open spec fn all_names_replaced(
    texts: Seq<Seq<char>>,
    self_name: Seq<char>,
    partner_name: Option<Seq<char>>,
) -> Seq<Seq<char>> {
    Seq::new(texts.len(), |i: int| names_replaced(texts[i], self_name, partner_name))
}

/// A copy of `s` in which `{{char}}` is replaced by `self_name` and, where a
/// partner is given, `{{user}}` by the partner's name.
pub fn replace_names(s: &str, self_name: &str, partner_name: Option<&str>) -> (r: String)
    ensures
        r@ == names_replaced(s@, self_name@, name_view(partner_name)),
{
    proof {
        reveal_strlit("{{char}}");
        reveal_strlit("{{user}}");
        assert("{{char}}"@ =~= char_placeholder());
        assert("{{user}}"@ =~= user_placeholder());
    }
    let replaced_char_name = replace(s, "{{char}}", self_name);
    match partner_name {
        Some(name) => replace(replaced_char_name.as_str(), "{{user}}", name),
        None => replaced_char_name,
    }
}

/// Each string of `texts` with the placeholders replaced.
fn replace_names_in_all(texts: &Vec<String>, self_name: &str, partner_name: Option<&str>) -> (r:
    Vec<String>)
    ensures
        texts_of(r@) == all_names_replaced(texts_of(texts@), self_name@, name_view(partner_name)),
{
    let mut r: Vec<String> = Vec::new();
    let mut i: usize = 0;
    while i < texts.len()
        invariant
            i <= texts.len(),
            r@.len() == i,
            forall|k: int|
                0 <= k < i ==> (#[trigger] r@[k])@ == names_replaced(
                    texts@[k]@,
                    self_name@,
                    name_view(partner_name),
                ),
        decreases texts.len() - i,
    {
        r.push(replace_names(texts[i].as_str(), self_name, partner_name));
        i = i + 1;
    }
    assert(texts_of(r@) =~= all_names_replaced(
        texts_of(texts@),
        self_name@,
        name_view(partner_name),
    ));
    r
}

/// What a character has to tell: its name, the prompt that describes it to
/// the backend, and the messages a conversation with it may open with.
pub trait CharData {
    /// The name.
    spec fn name_view(&self) -> Seq<char>;

    /// The prompt for a partner of the given name.
    spec fn system_prompt_view(&self, partner_name: Option<Seq<char>>) -> Seq<char>;

    /// The opening messages for a partner of the given name, if there are
    /// any.
    spec fn greetings_view(&self, partner_name: Option<Seq<char>>) -> Option<Seq<Seq<char>>>;

    fn name(&self) -> (name: &str)
        ensures
            name@ == self.name_view(),
    ;

    fn system_prompt(&self, partner_name: Option<&str>) -> (prompt: String)
        ensures
            prompt@ == self.system_prompt_view(name_view(partner_name)),
    ;

    fn greetings(&self, partner_name: Option<&str>) -> (greetings: Option<Vec<String>>)
        ensures
            match greetings {
                Some(list) => self.greetings_view(name_view(partner_name)) == Some(
                    texts_of(list@),
                ),
                None => self.greetings_view(name_view(partner_name)) is None,
            },
    ;
}

/// A character known by a name and a description.
#[derive(Clone, Debug)]
pub struct Basic {
    name: String,
    description: String,
}

/// A character card: a name, a description, and opening messages.
#[derive(Clone, Debug)]
pub struct Card {
    name: String,
    description: String,
    greetings: Vec<String>,
}

/// The kinds of character data.
#[derive(Clone, Debug)]
pub enum PType {
    Basic(Basic),
    Card(Card),
}

impl Basic {
    /// The name.
    pub closed spec fn spec_name(&self) -> Seq<char> {
        self.name@
    }

    /// The description.
    pub closed spec fn spec_description(&self) -> Seq<char> {
        self.description@
    }

    /// Character data with the given name and description.
    pub fn new(name: &str, description: &str) -> (data: PType)
        ensures
            data matches PType::Basic(basic) && basic.spec_name() == name@
                && basic.spec_description() == description@,
    {
        PType::Basic(Basic { name: name.to_owned(), description: description.to_owned() })
    }

    /// A copy of the name.
    pub fn name(&self) -> (name: String)
        ensures
            name@ == self.spec_name(),
    {
        self.name.clone()
    }

    /// A copy of the description.
    pub fn description(&self) -> (description: String)
        ensures
            description@ == self.spec_description(),
    {
        self.description.clone()
    }
}

impl CharData for Basic {
    open spec fn name_view(&self) -> Seq<char> {
        self.spec_name()
    }

    /// The description, with the placeholders replaced.
    open spec fn system_prompt_view(&self, partner_name: Option<Seq<char>>) -> Seq<char> {
        names_replaced(self.spec_description(), self.spec_name(), partner_name)
    }

    /// Such a character opens no conversation.
    open spec fn greetings_view(&self, partner_name: Option<Seq<char>>) -> Option<Seq<Seq<char>>> {
        None
    }

    fn name(&self) -> (name: &str) {
        self.name.as_str()
    }

    fn system_prompt(&self, partner_name: Option<&str>) -> (prompt: String) {
        replace_names(self.description.as_str(), self.name.as_str(), partner_name)
    }

    fn greetings(&self, partner_name: Option<&str>) -> (greetings: Option<Vec<String>>) {
        None
    }
}

impl Card {
    /// The name.
    pub closed spec fn spec_name(&self) -> Seq<char> {
        self.name@
    }

    /// The description.
    pub closed spec fn spec_description(&self) -> Seq<char> {
        self.description@
    }

    /// The opening messages as they were given.
    pub closed spec fn spec_greetings(&self) -> Seq<Seq<char>> {
        texts_of(self.greetings@)
    }

    /// A copy of the name.
    pub fn name(&self) -> (name: String)
        ensures
            name@ == self.spec_name(),
    {
        self.name.clone()
    }

    /// A copy of the description.
    pub fn description(&self) -> (description: String)
        ensures
            description@ == self.spec_description(),
    {
        self.description.clone()
    }

    /// A copy of the opening messages as they were given.
    pub fn greetings(&self) -> (greetings: Vec<String>)
        ensures
            texts_of(greetings@) == self.spec_greetings(),
    {
        copy_strings(&self.greetings)
    }

    /// A card with the given name, description and opening messages.
    pub fn new(name: &str, description: &str, greetings: Vec<String>) -> (data: PType)
        ensures
            data matches PType::Card(card) && card.spec_name() == name@ && card.spec_description()
                == description@ && card.spec_greetings() == texts_of(greetings@),
    {
        PType::Card(Card { name: name.to_owned(), description: description.to_owned(), greetings })
    }
}

impl CharData for Card {
    open spec fn name_view(&self) -> Seq<char> {
        self.spec_name()
    }

    /// The description, with the placeholders replaced.
    open spec fn system_prompt_view(&self, partner_name: Option<Seq<char>>) -> Seq<char> {
        names_replaced(self.spec_description(), self.spec_name(), partner_name)
    }

    /// The opening messages, with the placeholders replaced in each.
    open spec fn greetings_view(&self, partner_name: Option<Seq<char>>) -> Option<Seq<Seq<char>>> {
        Some(all_names_replaced(self.spec_greetings(), self.spec_name(), partner_name))
    }

    fn name(&self) -> (name: &str) {
        self.name.as_str()
    }

    fn system_prompt(&self, partner_name: Option<&str>) -> (prompt: String) {
        replace_names(self.description.as_str(), self.name.as_str(), partner_name)
    }

    fn greetings(&self, partner_name: Option<&str>) -> (greetings: Option<Vec<String>>) {
        Some(replace_names_in_all(&self.greetings, self.name.as_str(), partner_name))
    }
}

impl CharData for PType {
    open spec fn name_view(&self) -> Seq<char> {
        match *self {
            PType::Basic(basic) => basic.name_view(),
            PType::Card(card) => card.name_view(),
        }
    }

    open spec fn system_prompt_view(&self, partner_name: Option<Seq<char>>) -> Seq<char> {
        match *self {
            PType::Basic(basic) => basic.system_prompt_view(partner_name),
            PType::Card(card) => card.system_prompt_view(partner_name),
        }
    }

    open spec fn greetings_view(&self, partner_name: Option<Seq<char>>) -> Option<Seq<Seq<char>>> {
        match *self {
            PType::Basic(basic) => basic.greetings_view(partner_name),
            PType::Card(card) => card.greetings_view(partner_name),
        }
    }

    fn name(&self) -> (name: &str) {
        match self {
            PType::Basic(basic) => basic.name.as_str(),
            PType::Card(card) => card.name.as_str(),
        }
    }

    fn system_prompt(&self, partner_name: Option<&str>) -> (prompt: String) {
        match self {
            PType::Basic(basic) => CharData::system_prompt(basic, partner_name),
            PType::Card(card) => CharData::system_prompt(card, partner_name),
        }
    }

    fn greetings(&self, partner_name: Option<&str>) -> (greetings: Option<Vec<String>>) {
        match self {
            PType::Basic(basic) => CharData::greetings(basic, partner_name),
            PType::Card(card) => CharData::greetings(card, partner_name),
        }
    }
}

/// One side of a conversation: its data and, where it has one, the place of
/// its picture.
#[derive(Debug)]
pub struct Persona {
    data: PType,
    avatar_uri: Option<String>,
}

/// The name of the person who is not told otherwise: `User`.
pub open spec fn default_user_name() -> Seq<char> {
    seq!['U', 's', 'e', 'r']
}

/// The name of the character that is there from the start: `Luna`.
pub open spec fn default_char_name() -> Seq<char> {
    seq!['L', 'u', 'n', 'a']
}

impl Persona {
    /// The place of the picture, if there is one.
    pub closed spec fn avatar_view(&self) -> Option<Seq<char>> {
        match self.avatar_uri {
            Some(uri) => Some(uri@),
            None => None,
        }
    }

    /// The description as it was given, placeholders and all.
    pub open spec fn description_view(&self) -> Seq<char> {
        match self.data_view() {
            PType::Basic(basic) => basic.spec_description(),
            PType::Card(card) => card.spec_description(),
        }
    }

    /// The data that the persona was made of.
    pub closed spec fn data_view(&self) -> PType {
        self.data
    }

    /// A persona with the given data and picture.
    pub fn new(data: PType, avatar_uri: Option<String>) -> (persona: Persona)
        ensures
            persona.data_view() == data,
            persona.avatar_view() == (match avatar_uri {
                Some(uri) => Some(uri@),
                None => None,
            }),
    {
        Persona { data, avatar_uri }
    }

    /// The person at the keyboard, as long as nothing else is known: the name
    /// `User`, no description, the stock picture.
    pub fn default_user() -> (persona: Persona)
        ensures
            persona.name_view() == default_user_name(),
            persona.description_view() == Seq::<char>::empty(),
            persona.greetings_view(None) is None,
            persona.avatar_view() == Some("assets/user.png"@),
    {
        proof {
            reveal_strlit("User");
            reveal_strlit("");
            assert("User"@ =~= default_user_name());
            assert(""@ =~= Seq::<char>::empty());
        }
        Persona { data: Basic::new("User", ""), avatar_uri: Some("assets/user.png".to_owned()) }
    }

    /// The character that is there from the start: the name `Luna`, one line
    /// of description, the stock picture.
    pub fn default_char() -> (persona: Persona)
        ensures
            persona.name_view() == default_char_name(),
            persona.description_view() == "You are Luna, an helpfull AI assistant."@,
            persona.greetings_view(None) is None,
            persona.avatar_view() == Some("assets/char.png"@),
    {
        proof {
            reveal_strlit("Luna");
            assert("Luna"@ =~= default_char_name());
        }
        Persona {
            data: Basic::new("Luna", "You are Luna, an helpfull AI assistant."),
            avatar_uri: Some("assets/char.png".to_owned()),
        }
    }

    /// A copy of the name.
    pub fn get_name(&self) -> (name: String)
        ensures
            name@ == self.name_view(),
    {
        CharData::name(&self.data).to_owned()
    }

    /// A copy of the description as it was given.
    pub fn get_description(&self) -> (description: String)
        ensures
            description@ == self.description_view(),
    {
        match &self.data {
            PType::Basic(basic) => basic.description.clone(),
            PType::Card(card) => card.description.clone(),
        }
    }

    /// A copy of the place of the picture, if there is one.
    pub fn get_avatar_uri(&self) -> (uri: Option<String>)
        ensures
            self.avatar_view() == (match uri {
                Some(u) => Some(u@),
                None => None,
            }),
    {
        match &self.avatar_uri {
            Some(uri) => Some(uri.clone()),
            None => None,
        }
    }

    /// A copy of `s` in which `{{char}}` is replaced by `self_name` and,
    /// where a partner is given, `{{user}}` by the partner's name.
    pub fn replace_names(s: &str, self_name: &str, partner_name: Option<&str>) -> (r: String)
        ensures
            r@ == names_replaced(s@, self_name@, name_view(partner_name)),
    {
        replace_names(s, self_name, partner_name)
    }
}

/// A copy of each string of `strings`.
fn copy_strings(strings: &Vec<String>) -> (copies: Vec<String>)
    ensures
        texts_of(copies@) == texts_of(strings@),
{
    let mut copies: Vec<String> = Vec::new();
    let mut i: usize = 0;
    while i < strings.len()
        invariant
            i <= strings.len(),
            copies@.len() == i,
            forall|k: int| 0 <= k < i ==> (#[trigger] copies@[k])@ == strings@[k]@,
        decreases strings.len() - i,
    {
        copies.push(strings[i].clone());
        i = i + 1;
    }
    assert(texts_of(copies@) =~= texts_of(strings@));
    copies
}

impl Clone for Persona {
    /// A copy tells the same as the persona it was made from: the same name,
    /// description, prompt, greetings and picture.
    fn clone(&self) -> (copy: Persona)
        ensures
            copy.name_view() == self.name_view(),
            copy.description_view() == self.description_view(),
            copy.avatar_view() == self.avatar_view(),
            forall|partner: Option<Seq<char>>|
                #![trigger copy.system_prompt_view(partner)]
                copy.system_prompt_view(partner) == self.system_prompt_view(partner),
            forall|partner: Option<Seq<char>>|
                #![trigger copy.greetings_view(partner)]
                copy.greetings_view(partner) == self.greetings_view(partner),
    {
        let data = match &self.data {
            PType::Basic(basic) => PType::Basic(
                Basic { name: basic.name.clone(), description: basic.description.clone() },
            ),
            PType::Card(card) => PType::Card(
                Card {
                    name: card.name.clone(),
                    description: card.description.clone(),
                    greetings: copy_strings(&card.greetings),
                },
            ),
        };
        let avatar_uri = match &self.avatar_uri {
            Some(uri) => Some(uri.clone()),
            None => None,
        };
        Persona { data, avatar_uri }
    }
}

impl CharData for Persona {
    open spec fn name_view(&self) -> Seq<char> {
        self.data_view().name_view()
    }

    open spec fn system_prompt_view(&self, partner_name: Option<Seq<char>>) -> Seq<char> {
        self.data_view().system_prompt_view(partner_name)
    }

    open spec fn greetings_view(&self, partner_name: Option<Seq<char>>) -> Option<
        Seq<Seq<char>>,
    > {
        self.data_view().greetings_view(partner_name)
    }

    fn name(&self) -> (name: &str) {
        CharData::name(&self.data)
    }

    fn system_prompt(&self, partner_name: Option<&str>) -> (prompt: String) {
        CharData::system_prompt(&self.data, partner_name)
    }

    fn greetings(&self, partner_name: Option<&str>) -> (greetings: Option<Vec<String>>) {
        CharData::greetings(&self.data, partner_name)
    }
}

/// The character of the backend, by name and description.
#[derive(Clone, Debug)]
pub struct Char {
    name: String,
    description: String,
}

/// The person at the keyboard, by name and description.
#[derive(Clone, Debug)]
pub struct User {
    name: String,
    description: String,
}

impl Char {
    pub closed spec fn name_view(&self) -> Seq<char> {
        self.name@
    }

    pub closed spec fn description_view(&self) -> Seq<char> {
        self.description@
    }

    /// A copy of the name.
    pub fn get_name(&self) -> (name: String)
        ensures
            name@ == self.name_view(),
    {
        self.name.clone()
    }

    /// A copy of the description.
    pub fn get_description(&self) -> (description: String)
        ensures
            description@ == self.description_view(),
    {
        self.description.clone()
    }

    /// The place of the character's picture.
    pub fn get_avatar_uri(&self) -> (uri: String)
        ensures
            uri@ == "assets/char.png"@,
    {
        "assets/char.png".to_owned()
    }

    /// What the backend is sent for a text that the character wrote.
    pub fn create_message(&self, text: String) -> (m: ChatMessage)
        ensures
            m == assistant_chat_message(text@),
    {
        build_assistant_message(text.as_str())
    }
}

impl Default for Char {
    fn default() -> (c: Char)
        ensures
            c.name_view() == default_char_name(),
            c.description_view() == "You are Luna, an helpfull AI assistant."@,
    {
        proof {
            reveal_strlit("Luna");
            assert("Luna"@ =~= default_char_name());
        }
        Char {
            name: "Luna".to_owned(),
            description: "You are Luna, an helpfull AI assistant.".to_owned(),
        }
    }
}

impl User {
    pub closed spec fn name_view(&self) -> Seq<char> {
        self.name@
    }

    pub closed spec fn description_view(&self) -> Seq<char> {
        self.description@
    }

    /// A copy of the name.
    pub fn get_name(&self) -> (name: String)
        ensures
            name@ == self.name_view(),
    {
        self.name.clone()
    }

    /// A copy of the description.
    pub fn get_description(&self) -> (description: String)
        ensures
            description@ == self.description_view(),
    {
        self.description.clone()
    }

    /// The place of the user's picture.
    pub fn get_avatar_uri(&self) -> (uri: String)
        ensures
            uri@ == "assets/user.png"@,
    {
        "assets/user.png".to_owned()
    }

    /// What the backend is sent for a text that the user wrote.
    pub fn create_message(&self, text: String) -> (m: ChatMessage)
        ensures
            m == user_chat_message(text@),
    {
        build_user_message(text.as_str())
    }
}

impl Default for User {
    fn default() -> (u: User)
        ensures
            u.name_view() == default_user_name(),
            u.description_view() == Seq::<char>::empty(),
    {
        proof {
            reveal_strlit("User");
            reveal_strlit("");
            assert("User"@ =~= default_user_name());
            assert(""@ =~= Seq::<char>::empty());
        }
        User { name: "User".to_owned(), description: String::new() }
    }
}

} // verus!
