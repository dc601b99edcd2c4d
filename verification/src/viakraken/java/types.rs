//! What the login packets carry.

use vstd::prelude::*;

verus! {

#[derive(Debug, Clone, Copy, PartialEq, Eq, Structural)]
pub struct HandshakeInfo {
    pub protocol_version: i32,
    pub next_state: i32,
}

#[derive(Debug, Clone)]
pub struct LoginStartInfo {
    pub username: String,
}

/// A profile property, such as the skin.
#[derive(Debug, Clone)]
pub struct Property {
    pub name: String,
    pub value: String,
    pub signature: Option<String>,
}

/// A profile property as texts.
#[verifier::ext_equal]
pub struct PropertyText {
    pub name: Seq<char>,
    pub value: Seq<char>,
    pub signature: Option<Seq<char>>,
}

impl View for Property {
    type V = PropertyText;

    open spec fn view(&self) -> PropertyText {
        PropertyText {
            name: self.name@,
            value: self.value@,
            signature: match self.signature {
                Some(s) => Some(s@),
                None => None,
            },
        }
    }
}

/// What a Login Success packet says: who the player is.
#[derive(Debug, Clone)]
pub struct LoginSuccessCore {
    pub uuid: u128,
    pub username: String,
    pub properties: Vec<Property>,
}

#[verifier::ext_equal]
pub struct LoginSuccessText {
    pub uuid: u128,
    pub username: Seq<char>,
    pub properties: Seq<PropertyText>,
}

impl View for LoginSuccessCore {
    type V = LoginSuccessText;

    open spec fn view(&self) -> LoginSuccessText {
        LoginSuccessText {
            uuid: self.uuid,
            username: self.username@,
            properties: Seq::new(self.properties@.len(), |i: int| self.properties@[i]@),
        }
    }
}

} // verus!
