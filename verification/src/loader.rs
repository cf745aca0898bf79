//! What is decided when personas are looked up in the cache: which
//! directory counts as the most recent, and what stands in for a persona
//! that could not be loaded.

use crate::persona::{default_char_name, default_user_name, CharData, PType, Persona};
use vstd::prelude::*;

verus! {

/// The two kinds of persona that the cache holds.
#[derive(Clone, Copy, Debug, PartialEq, Eq, Structural)]
pub enum Subdir {
    Chars,
    Users,
}

impl Subdir {
    /// The name of the stock persona of this kind.
    pub open spec fn default_name(self) -> Seq<char> {
        match self {
            Subdir::Chars => default_char_name(),
            Subdir::Users => default_user_name(),
        }
    }

    /// The place of the stock picture of this kind.
    pub open spec fn default_picture(self) -> Seq<char> {
        match self {
            Subdir::Chars => "assets/char.png"@,
            Subdir::Users => "assets/user.png"@,
        }
    }

    /// The stock persona of this kind.
    pub fn default_persona(&self) -> (persona: Persona)
        ensures
            persona.name_view() == self.default_name(),
            persona.greetings_view(None) is None,
            persona.avatar_view() == Some(self.default_picture()),
    {
        match self {
            Subdir::Chars => Persona::default_char(),
            Subdir::Users => Persona::default_user(),
        }
    }

    /// The place of the stock picture of this kind.
    pub fn default_handle(&self) -> (uri: String)
        ensures
            uri@ == self.default_picture(),
    {
        match self {
            Subdir::Chars => "assets/char.png".to_owned(),
            Subdir::Users => "assets/user.png".to_owned(),
        }
    }

    /// The name of the cache directory of this kind.
    pub fn dir_name(&self) -> (name: &'static str)
        ensures
            name@ == (match *self {
                Subdir::Chars => "chars"@,
                Subdir::Users => "users"@,
            }),
    {
        match self {
            Subdir::Chars => "chars",
            Subdir::Users => "users",
        }
    }
}

/// The index of the directory that changed last, given when each one
/// changed, in seconds since the epoch: the first one with the greatest time,
/// if that time lies after the epoch.
pub open spec fn most_recent(modified: Seq<u64>) -> Option<int> {
    if exists|i: int| is_most_recent(modified, i) {
        Some(choose|i: int| is_most_recent(modified, i))
    } else {
        None
    }
}

/// `i` is the first index with the greatest time, and that time is not 0.
pub open spec fn is_most_recent(modified: Seq<u64>, i: int) -> bool {
    &&& 0 <= i < modified.len()
    &&& modified[i] > 0
    &&& forall|j: int| 0 <= j < i ==> modified[j] < modified[i]
    &&& forall|j: int| i < j < modified.len() ==> modified[j] <= modified[i]
}

/// At most one index is the most recent.
pub proof fn lemma_most_recent_unique(modified: Seq<u64>, i: int, j: int)
    requires
        is_most_recent(modified, i),
        is_most_recent(modified, j),
    ensures
        i == j,
{
    if i < j {
        assert(modified[i] < modified[j]);
    } else if j < i {
        assert(modified[j] < modified[i]);
    }
}

/// Loads personas from the cache, as far as that is a matter of deciding.
pub struct PersonaLoader {}

impl PersonaLoader {
    /// The personas of one kind: those that were found, or, where the cache
    /// could not be read, the stock persona alone.
    pub fn load_from_cache(subdir: Subdir, found: Option<Vec<Persona>>) -> (personas: Vec<Persona>)
        ensures
            match found {
                Some(list) => personas == list,
                None => personas@.len() == 1 && personas@[0].name_view() == subdir.default_name()
                    && personas@[0].avatar_view() == Some(subdir.default_picture()),
            },
    {
        match found {
            Some(list) => list,
            None => {
                let mut personas: Vec<Persona> = Vec::new();
                personas.push(subdir.default_persona());
                personas
            },
        }
    }

    /// The persona that was used last: the one that was found, or, where
    /// none could be loaded, the stock persona.
    pub fn load_most_recent_from_cache(subdir: Subdir, found: Option<Persona>) -> (persona: Persona)
        ensures
            match found {
                Some(p) => persona == p,
                None => persona.name_view() == subdir.default_name() && persona.avatar_view()
                    == Some(subdir.default_picture()),
            },
    {
        match found {
            Some(persona) => persona,
            None => subdir.default_persona(),
        }
    }

    /// The persona of one directory of the cache, from what was found in it:
    /// the data of the persona, with the picture that was found or else the
    /// stock picture. Without data there is no persona.
    pub fn try_load_subdir(data: Option<PType>, image: Option<String>, default_handle: &str) -> (persona:
        Option<Persona>)
        ensures
            match data {
                Some(found) => persona matches Some(p) && p.data_view() == found
                    && p.avatar_view() == Some(
                    match image {
                        Some(uri) => uri@,
                        None => default_handle@,
                    },
                ),
                None => persona is None,
            },
    {
        match data {
            Some(found) => Some(
                Persona::new(
                    found,
                    Some(
                        match image {
                            Some(uri) => uri,
                            None => default_handle.to_owned(),
                        },
                    ),
                ),
            ),
            None => None,
        }
    }

    /// The index of the directory that changed last, given when each one
    /// changed, in seconds since the epoch. A directory whose time is 0 is
    /// never chosen: that is the time of one that could not be asked.
    pub fn most_recent_dir(modified: &Vec<u64>) -> (index: Option<usize>)
        ensures
            match index {
                Some(i) => most_recent(modified@) == Some(i as int),
                None => most_recent(modified@) is None,
            },
    {
        let mut best: Option<usize> = None;
        let mut best_time: u64 = 0;
        let mut i: usize = 0;
        while i < modified.len()
            invariant
                i <= modified.len(),
                match best {
                    Some(b) => b < i && is_most_recent(modified@.take(i as int), b as int)
                        && best_time == modified@[b as int],
                    None => best_time == 0 && forall|j: int| 0 <= j < i ==> modified@[j] == 0,
                },
            decreases modified.len() - i,
        {
            let ghost seen = modified@.take(i as int);
            let ghost next = modified@.take(i + 1);
            let ghost before = best;
            if modified[i] > best_time {
                best = Some(i);
                best_time = modified[i];
                proof {
                    assert forall|j: int| 0 <= j < i implies next[j] < next[i as int] by {
                        if let Some(b) = before {
                            let bi = b as int;
                            assert(seen[j] <= seen[bi]);
                        }
                    }
                    assert(is_most_recent(next, i as int));
                }
            } else {
                proof {
                    if let Some(b) = best {
                        let bi = b as int;
                        assert forall|j: int| 0 <= j < bi implies next[j] < next[bi] by {
                            assert(seen[j] < seen[bi]);
                        }
                        assert forall|j: int| bi < j < next.len() implies next[j] <= next[bi] by {
                            if j < i {
                                assert(seen[j] <= seen[bi]);
                            }
                        }
                        assert(is_most_recent(next, bi));
                    }
                }
            }
            i = i + 1;
        }
        proof {
            assert(modified@.take(i as int) =~= modified@);
            match best {
                Some(b) => {
                    assert(is_most_recent(modified@, b as int));
                    lemma_most_recent_unique(
                        modified@,
                        b as int,
                        choose|k: int| is_most_recent(modified@, k),
                    );
                },
                None => {
                    assert forall|k: int| !is_most_recent(modified@, k) by {}
                },
            }
        }
        best
    }
}

} // verus!
