use vstd::prelude::*;
use crate::numbers::spec_u8_dec;
use crate::numbers::u8_to_dec;

verus! {

/// A person's gender, as the operator enters it.
pub enum Gender {
    Male,
    Female,
    GenderFluid,
    Nonbinary,
    Other(String),
}

/// The display name of a gender.
pub open spec fn spec_gender_str(g: Gender) -> Seq<char> {
    match g {
        Gender::Male => "male"@,
        Gender::Female => "female"@,
        Gender::GenderFluid => "gender fluid"@,
        Gender::Nonbinary => "nonbinary"@,
        Gender::Other(name) => name@,
    }
}

impl Gender {
    /// The display name of this gender.
    pub fn to_string(&self) -> (r: String)
        ensures
            r@ == spec_gender_str(*self),
    {
        match self {
            Gender::Male => String::from_str("male"),
            Gender::Female => String::from_str("female"),
            Gender::GenderFluid => String::from_str("gender fluid"),
            Gender::Nonbinary => String::from_str("nonbinary"),
            Gender::Other(name) => name.clone(),
        }
    }
}

/// What the first letter of the operator's answer chooses: a gender,
/// the request to name one, or nothing.
pub enum GenderChoice {
    Chosen(Gender),
    /// The answer asks for a gender entered by name.
    NeedsName,
    /// The answer names no choice; the operator is asked again.
    Invalid,
}

/// The choice each answer letter stands for, in either case: m, f, g
/// and n choose a gender, o asks for a name, anything else is invalid.
pub open spec fn spec_gender_choice(c: char) -> GenderChoice {
    if c == 'm' || c == 'M' {
        GenderChoice::Chosen(Gender::Male)
    } else if c == 'f' || c == 'F' {
        GenderChoice::Chosen(Gender::Female)
    } else if c == 'g' || c == 'G' {
        GenderChoice::Chosen(Gender::GenderFluid)
    } else if c == 'n' || c == 'N' {
        GenderChoice::Chosen(Gender::Nonbinary)
    } else if c == 'o' || c == 'O' {
        GenderChoice::NeedsName
    } else {
        GenderChoice::Invalid
    }
}

/// Decides what gender the first letter of an answer chooses.
pub fn gender_choice(c: char) -> (r: GenderChoice)
    ensures
        r == spec_gender_choice(c),
{
    if c == 'm' || c == 'M' {
        GenderChoice::Chosen(Gender::Male)
    } else if c == 'f' || c == 'F' {
        GenderChoice::Chosen(Gender::Female)
    } else if c == 'g' || c == 'G' {
        GenderChoice::Chosen(Gender::GenderFluid)
    } else if c == 'n' || c == 'N' {
        GenderChoice::Chosen(Gender::Nonbinary)
    } else if c == 'o' || c == 'O' {
        GenderChoice::NeedsName
    } else {
        GenderChoice::Invalid
    }
}

/// One employee: a name, an age, a gender, and the unique id given
/// when the employee was added.
pub struct Person {
    pub name: String,
    pub age: u8,
    pub gender: Gender,
    pub id: usize,
}

/// The display line of a person: name, age and gender, separated by
/// commas.
pub open spec fn spec_person_str(p: Person) -> Seq<char> {
    p.name@ + ", "@ + spec_u8_dec(p.age) + ", "@ + spec_gender_str(p.gender)
}

impl Person {
    /// The display line of this person.
    pub fn to_string(&self) -> (r: String)
        ensures
            r@ == spec_person_str(*self),
    {
        let mut out = self.name.clone();
        out.append(", ");
        let age = u8_to_dec(self.age);
        out.append(age.as_str());
        out.append(", ");
        let g = self.gender.to_string();
        out.append(g.as_str());
        proof {
            assert(out@ =~= spec_person_str(*self));
        }
        out
    }
}

} // verus!
