use vstd::prelude::*;

verus! {

/// One step of a field pipeline. The steps themselves run in the
/// validation layer; here a pipeline is only declared.
#[derive(Debug)]
pub enum Modifier {
    Abs,
    AddI(i128),
    Alnum,
    Alpha,
    Ceil,
    Floor,
    Email,
    Now,
    RandomDigits(usize),
    StrAppend(&'static str),
    StrPrepend(&'static str),
    RegexMatch(&'static str),
    RegexReplace(&'static str, &'static str),
    IfP(Pipeline),
    ElseP(Pipeline),
    ThenP(Pipeline),
    IsNull,
    ObjectValue(&'static str),
}

/// An ordered list of modifiers.
#[derive(Debug)]
pub struct Pipeline {
    pub modifiers: Vec<Modifier>,
}

impl Pipeline {
    pub fn new() -> (r: Self)
        ensures
            r.modifiers@.len() == 0,
    {
        Pipeline { modifiers: Vec::new() }
    }

    pub fn has_any_modifier(&self) -> (r: bool)
        ensures
            r == (self.modifiers@.len() > 0),
    {
        self.modifiers.len() > 0
    }

    fn push(&mut self, m: Modifier) -> (r: &mut Self)
        ensures
            r.modifiers@ == old(self).modifiers@.push(m),
            *final(r) == *final(self),
    {
        self.modifiers.push(m);
        self
    }

    pub fn abs(&mut self) -> (r: &mut Self)
        ensures
            r.modifiers@ == old(self).modifiers@.push(Modifier::Abs),
            *final(r) == *final(self),
    {
        self.push(Modifier::Abs)
    }

    pub fn addi(&mut self, addend: i128) -> (r: &mut Self)
        ensures
            r.modifiers@ == old(self).modifiers@.push(Modifier::AddI(addend)),
            *final(r) == *final(self),
    {
        self.push(Modifier::AddI(addend))
    }

    pub fn alnum(&mut self) -> (r: &mut Self)
        ensures
            r.modifiers@ == old(self).modifiers@.push(Modifier::Alnum),
            *final(r) == *final(self),
    {
        self.push(Modifier::Alnum)
    }

    pub fn alpha(&mut self) -> (r: &mut Self)
        ensures
            r.modifiers@ == old(self).modifiers@.push(Modifier::Alpha),
            *final(r) == *final(self),
    {
        self.push(Modifier::Alpha)
    }

    pub fn ceil(&mut self) -> (r: &mut Self)
        ensures
            r.modifiers@ == old(self).modifiers@.push(Modifier::Ceil),
            *final(r) == *final(self),
    {
        self.push(Modifier::Ceil)
    }

    pub fn floor(&mut self) -> (r: &mut Self)
        ensures
            r.modifiers@ == old(self).modifiers@.push(Modifier::Floor),
            *final(r) == *final(self),
    {
        self.push(Modifier::Floor)
    }

    pub fn email(&mut self) -> (r: &mut Self)
        ensures
            r.modifiers@ == old(self).modifiers@.push(Modifier::Email),
            *final(r) == *final(self),
    {
        self.push(Modifier::Email)
    }

    pub fn now(&mut self) -> (r: &mut Self)
        ensures
            r.modifiers@ == old(self).modifiers@.push(Modifier::Now),
            *final(r) == *final(self),
    {
        self.push(Modifier::Now)
    }

    pub fn random_digits(&mut self, len: usize) -> (r: &mut Self)
        ensures
            r.modifiers@ == old(self).modifiers@.push(Modifier::RandomDigits(len)),
            *final(r) == *final(self),
    {
        self.push(Modifier::RandomDigits(len))
    }

    pub fn str_append(&mut self, suffix: &'static str) -> (r: &mut Self)
        ensures
            r.modifiers@ == old(self).modifiers@.push(Modifier::StrAppend(suffix)),
            *final(r) == *final(self),
    {
        self.push(Modifier::StrAppend(suffix))
    }

    pub fn str_prepend(&mut self, prefix: &'static str) -> (r: &mut Self)
        ensures
            r.modifiers@ == old(self).modifiers@.push(Modifier::StrPrepend(prefix)),
            *final(r) == *final(self),
    {
        self.push(Modifier::StrPrepend(prefix))
    }

    pub fn regex_match(&mut self, regex: &'static str) -> (r: &mut Self)
        ensures
            r.modifiers@ == old(self).modifiers@.push(Modifier::RegexMatch(regex)),
            *final(r) == *final(self),
    {
        self.push(Modifier::RegexMatch(regex))
    }

    pub fn regex_replace(&mut self, regex: &'static str, substitute: &'static str) -> (r: &mut Self)
        ensures
            r.modifiers@ == old(self).modifiers@.push(Modifier::RegexReplace(regex, substitute)),
            *final(r) == *final(self),
    {
        self.push(Modifier::RegexReplace(regex, substitute))
    }

    pub fn if_p(&mut self, pipeline: Pipeline) -> (r: &mut Self)
        ensures
            r.modifiers@ == old(self).modifiers@.push(Modifier::IfP(pipeline)),
            *final(r) == *final(self),
    {
        self.push(Modifier::IfP(pipeline))
    }

    pub fn else_p(&mut self, pipeline: Pipeline) -> (r: &mut Self)
        ensures
            r.modifiers@ == old(self).modifiers@.push(Modifier::ElseP(pipeline)),
            *final(r) == *final(self),
    {
        self.push(Modifier::ElseP(pipeline))
    }

    pub fn then_p(&mut self, pipeline: Pipeline) -> (r: &mut Self)
        ensures
            r.modifiers@ == old(self).modifiers@.push(Modifier::ThenP(pipeline)),
            *final(r) == *final(self),
    {
        self.push(Modifier::ThenP(pipeline))
    }

    pub fn is_null(&mut self) -> (r: &mut Self)
        ensures
            r.modifiers@ == old(self).modifiers@.push(Modifier::IsNull),
            *final(r) == *final(self),
    {
        self.push(Modifier::IsNull)
    }

    pub fn object_value(&mut self, key: &'static str) -> (r: &mut Self)
        ensures
            r.modifiers@ == old(self).modifiers@.push(Modifier::ObjectValue(key)),
            *final(r) == *final(self),
    {
        self.push(Modifier::ObjectValue(key))
    }
}

} // verus!
