//! The two row types shown by the panes: a named `Shortcut` tagged with a
//! kind, and a single `Configuration` field holding a value under a label.

use vstd::prelude::*;
use crate::text::{spec_split, split_char};

verus! {

/// The mathematical value of a `Shortcut`.
pub ghost struct ShortcutV {
    pub name: Seq<char>,
    pub kind: Seq<char>,
}

/// A named, persisted reference to one external command-line tool
/// invocation, tagged with a kind.
pub struct Shortcut {
    pub name: String,
    pub kind: String,
}

impl View for Shortcut {
    type V = ShortcutV;

    open spec fn view(&self) -> ShortcutV {
        ShortcutV { name: self.name@, kind: self.kind@ }
    }
}

impl DeepView for Shortcut {
    type V = ShortcutV;

    open spec fn deep_view(&self) -> ShortcutV {
        self.view()
    }
}

impl Clone for Shortcut {
    fn clone(&self) -> (r: Self)
        ensures
            r@ == self@,
    {
        Shortcut { name: self.name.clone(), kind: self.kind.clone() }
    }
}

impl Shortcut {
    /// The synthetic record substituted when a pane would otherwise be empty.
    pub fn default() -> (r: Self)
        ensures
            r@.name == "Default0"@,
            r@.kind == "Custom"@,
    {
        Shortcut { name: String::from_str("Default0"), kind: String::from_str("Custom") }
    }

    pub fn from(name: &str, kind: &str) -> (r: Self)
        ensures
            r@.name == name@,
            r@.kind == kind@,
    {
        Shortcut { name: String::from_str(name), kind: String::from_str(kind) }
    }

    /// Reads one `name;kind` row as the record store formats it. A row
    /// without both fields is rejected with a message naming the row.
    pub fn parse(value: &str) -> (r: Result<Self, String>)
        ensures
            spec_split(value@, ';').len() >= 2 ==> r is Ok && r->Ok_0@.name == spec_split(
                value@,
                ';',
            )[0] && r->Ok_0@.kind == spec_split(value@, ';')[1],
            spec_split(value@, ';').len() < 2 ==> r is Err,
    {
        let parts = split_char(value, ';');
        if parts.len() >= 2 {
            let mut it = parts;
            let kind_part = it.remove(1);
            let name_part = it.remove(0);
            Ok(Shortcut { name: name_part, kind: kind_part })
        } else {
            let mut message = String::from_str(
                "ERROR : when try to parse the following shortcut : '",
            );
            message.append(value);
            message.append("'");
            Err(message)
        }
    }

    pub fn get_name(&self) -> (r: &String)
        ensures
            r@ == self@.name,
    {
        &self.name
    }

    pub fn get_mut_name(&mut self) -> (r: &mut String)
        ensures
            (*r)@ == old(self)@.name,
            final(self)@.name == (*final(r))@,
            final(self)@.kind == old(self)@.kind,
    {
        &mut self.name
    }

    pub fn get_kind(&self) -> (r: &String)
        ensures
            r@ == self@.kind,
    {
        &self.kind
    }
}

/// The mathematical value of a `Configuration`.
pub ghost struct ConfigurationV {
    pub value: Seq<char>,
    pub kind: Seq<char>,
}

/// One configuration field: a value under a label; its position in the
/// pane's ordered sequence is its identity.
pub struct Configuration {
    pub value: String,
    pub kind: String,
}

impl View for Configuration {
    type V = ConfigurationV;

    open spec fn view(&self) -> ConfigurationV {
        ConfigurationV { value: self.value@, kind: self.kind@ }
    }
}

impl DeepView for Configuration {
    type V = ConfigurationV;

    open spec fn deep_view(&self) -> ConfigurationV {
        self.view()
    }
}

impl Clone for Configuration {
    fn clone(&self) -> (r: Self)
        ensures
            r@ == self@,
    {
        Configuration { value: self.value.clone(), kind: self.kind.clone() }
    }
}

impl Configuration {
    /// The synthetic field substituted when a pane would otherwise be empty.
    pub fn default() -> (r: Self)
        ensures
            r@.value == "echo Welcome on MyShortcuts"@,
            r@.kind == "DefaultProperty"@,
    {
        Configuration {
            value: String::from_str("echo Welcome on MyShortcuts"),
            kind: String::from_str("DefaultProperty"),
        }
    }

    pub fn from(value: &str, kind: &str) -> (r: Self)
        ensures
            r@.value == value@,
            r@.kind == kind@,
    {
        Configuration { value: String::from_str(value), kind: String::from_str(kind) }
    }

    pub fn get_value(&self) -> (r: &String)
        ensures
            r@ == self@.value,
    {
        &self.value
    }

    pub fn get_mut_value(&mut self) -> (r: &mut String)
        ensures
            (*r)@ == old(self)@.value,
            final(self)@.value == (*final(r))@,
            final(self)@.kind == old(self)@.kind,
    {
        &mut self.value
    }

    pub fn get_kind(&self) -> (r: &String)
        ensures
            r@ == self@.kind,
    {
        &self.kind
    }
}

} // verus!
