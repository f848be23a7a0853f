//! Salts: single-use tokens that tie an emitted event to its validation.

use vstd::prelude::*;
use crate::error::Error;
use crate::event::{fresh_token, is_uuid_text};
use crate::rpc::{
    callback_argument, callback_script, format_callback_result, lemma_byte_len_bound,
    MAX_JSON_STR_LEN,
};
use crate::text::{str_eq, strs};

verus! {

/// The salts that have been handed out and not yet used.
#[derive(Debug, Clone, PartialEq, Eq)]
pub struct SaltRegistry {
    /// The open salts, oldest first.
    pub salts: Vec<String>,
}

impl View for SaltRegistry {
    type V = Seq<Seq<char>>;

    open spec fn view(&self) -> Seq<Seq<char>> {
        strs(self.salts@)
    }
}

impl SaltRegistry {
    /// A registry without any salt.
    pub fn new() -> (r: SaltRegistry)
        ensures
            r@ == Seq::<Seq<char>>::empty(),
    {
        let r = SaltRegistry { salts: Vec::new() };
        assert(r@ =~= Seq::empty());
        r
    }

    /// Remembers a salt as handed out.
    pub fn remember(&mut self, token: String)
        ensures
            final(self)@ == old(self)@.push(token@),
    {
        self.salts.push(token);
        assert(self@ =~= old(self)@.push(token@));
    }

    /// Draws a fresh random salt, in the text form of a UUID, and remembers
    /// it.
    pub fn generate(&mut self) -> (token: String)
        ensures
            is_uuid_text(token@),
            final(self)@ == old(self)@.push(token@),
    {
        let token = fresh_token();
        self.remember(token.clone());
        token
    }

    /// Whether the salt is open. A salt that is valid is used up by the
    /// call: its oldest occurrence leaves the registry, so the same salt
    /// does not validate twice unless it was handed out twice.
    pub fn is_valid(&mut self, token: &str) -> (valid: bool)
        ensures
            valid == old(self)@.contains(token@),
            final(self)@ == used_up(old(self)@, token@),
    {
        let mut i: usize = 0;
        while i < self.salts.len()
            invariant
                i <= self.salts.len(),
                *self == *old(self),
                forall|j: int| 0 <= j < i ==> self@[j] != token@,
            decreases self.salts.len() - i,
        {
            if str_eq(self.salts[i].as_str(), token) {
                assert(self@[i as int] == token@);
                proof {
                    lemma_first_place(self@, token@, i as int);
                }
                self.salts.remove(i);
                assert(self@ =~= old(self)@.remove(i as int));
                return true;
            }
            i += 1;
        }
        false
    }
}

/// The place of the oldest occurrence of the salt, where there is one.
pub open spec fn first_place(salts: Seq<Seq<char>>, token: Seq<char>) -> int
    decreases salts.len(),
{
    if salts.len() == 0 || salts[0] == token {
        0
    } else {
        1 + first_place(salts.drop_first(), token)
    }
}

/// The open salts after one use of the salt: its oldest occurrence has
/// left; nothing has changed where the salt was not open.
pub open spec fn used_up(salts: Seq<Seq<char>>, token: Seq<char>) -> Seq<Seq<char>> {
    if salts.contains(token) {
        salts.remove(first_place(salts, token))
    } else {
        salts
    }
}

/// A place that holds the salt, with no occurrence before it, is the place
/// of the oldest occurrence.
pub proof fn lemma_first_place(salts: Seq<Seq<char>>, token: Seq<char>, i: int)
    requires
        0 <= i < salts.len(),
        salts[i] == token,
        forall|j: int| 0 <= j < i ==> salts[j] != token,
    ensures
        first_place(salts, token) == i,
    decreases i,
{
    if i > 0 {
        let rest = salts.drop_first();
        assert(rest[i - 1] == token);
        assert forall|j: int| 0 <= j < i - 1 implies rest[j] != token by {
            assert(rest[j] == salts[j + 1]);
        }
        lemma_first_place(rest, token, i - 1);
    }
}

/// The JSON text that answers a validation: the boolean.
pub open spec fn validation_json(valid: bool) -> Seq<char> {
    if valid {
        "true"@
    } else {
        "false"@
    }
}

/// Validates a salt and formats the answer: the callback gets `true` where
/// the salt was open and `false` where it was not. A valid salt is used up.
/// The error callback is not needed for an answer.
pub fn validate(salts: &mut SaltRegistry, salt: String, callback: String, error: String) -> (r:
    Result<String, Error>)
    ensures
        r is Ok,
        r->Ok_0@ == callback_script(callback@, validation_json(old(salts)@.contains(salt@))),
        final(salts)@ == used_up(old(salts)@, salt@),
{
    proof {
        lemma_answers_are_inlined();
    }
    let response: Result<&str, &str> = if salts.is_valid(salt.as_str()) {
        Ok("true")
    } else {
        Ok("false")
    };
    format_callback_result(response, callback.as_str(), error.as_str())
}

/// Both answers are short and no array or object, so they are inlined as
/// they are.
pub proof fn lemma_answers_are_inlined()
    ensures
        callback_argument("true"@) == "true"@,
        callback_argument("false"@) == "false"@,
        crate::rpc::byte_len("true"@) < MAX_JSON_STR_LEN,
        crate::rpc::byte_len("false"@) < MAX_JSON_STR_LEN,
{
    reveal_strlit("true");
    reveal_strlit("false");
    lemma_byte_len_bound("true"@);
    lemma_byte_len_bound("false"@);
}

} // verus!
