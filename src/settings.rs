//! The boolean capabilities an argument can carry.
use vstd::prelude::*;

verus! {

/// A named capability of an argument.
#[derive(Clone, Copy, Debug, PartialEq, Eq)]
pub enum ArgSettings {
    Required,
    Multiple,
    EmptyValues,
    Global,
    Hidden,
    TakesValue,
    UseValueDelimiter,
}

/// The set of capabilities that are switched on.
#[derive(Clone, Copy, Debug)]
pub struct ArgFlags {
    required: bool,
    multiple: bool,
    empty_values: bool,
    global: bool,
    hidden: bool,
    takes_value: bool,
    use_value_delimiter: bool,
}

impl ArgFlags {
    pub closed spec fn has(self, s: ArgSettings) -> bool {
        match s {
            ArgSettings::Required => self.required,
            ArgSettings::Multiple => self.multiple,
            ArgSettings::EmptyValues => self.empty_values,
            ArgSettings::Global => self.global,
            ArgSettings::Hidden => self.hidden,
            ArgSettings::TakesValue => self.takes_value,
            ArgSettings::UseValueDelimiter => self.use_value_delimiter,
        }
    }

    pub closed spec fn view(self) -> Set<ArgSettings> {
        Set::new(|s: ArgSettings| self.has(s))
    }

    /// No capability switched on.
    pub fn new() -> (r: ArgFlags)
        ensures
            r@ == Set::<ArgSettings>::empty(),
    {
        let r = ArgFlags {
            required: false,
            multiple: false,
            empty_values: false,
            global: false,
            hidden: false,
            takes_value: false,
            use_value_delimiter: false,
        };
        assert(r@ =~= Set::<ArgSettings>::empty());
        r
    }

    pub fn is_set(&self, s: ArgSettings) -> (r: bool)
        ensures
            r == self@.contains(s),
    {
        match s {
            ArgSettings::Required => self.required,
            ArgSettings::Multiple => self.multiple,
            ArgSettings::EmptyValues => self.empty_values,
            ArgSettings::Global => self.global,
            ArgSettings::Hidden => self.hidden,
            ArgSettings::TakesValue => self.takes_value,
            ArgSettings::UseValueDelimiter => self.use_value_delimiter,
        }
    }

    pub fn set(&mut self, s: ArgSettings)
        ensures
            final(self)@ == old(self)@.insert(s),
    {
        match s {
            ArgSettings::Required => self.required = true,
            ArgSettings::Multiple => self.multiple = true,
            ArgSettings::EmptyValues => self.empty_values = true,
            ArgSettings::Global => self.global = true,
            ArgSettings::Hidden => self.hidden = true,
            ArgSettings::TakesValue => self.takes_value = true,
            ArgSettings::UseValueDelimiter => self.use_value_delimiter = true,
        }
        assert(final(self)@ =~= old(self)@.insert(s));
    }
}

} // verus!
