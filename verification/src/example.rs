//! The sample robot: the five-link arm that `riggen --example arm` opens.
//! The desktop unpacks its files to a temporary directory and opens the
//! document; the web demo hands the same files over as one drop.

use vstd::prelude::*;

verus! {

/// A sample robot the application ships with.
#[derive(Debug, Clone, Copy, PartialEq, Eq, Structural)]
pub enum Example {
    /// The sample arm: four STL parts and the document that assembles
    /// them.
    Arm,
}

/// The example called `name`, if there is one.
pub open spec fn example_named(name: Seq<char>) -> Option<Example> {
    if name == "arm"@ {
        Some(Example::Arm)
    } else {
        None
    }
}

/// An example's name, as the command line spells it.
pub open spec fn example_name(example: Example) -> Seq<char> {
    match example {
        Example::Arm => "arm"@,
    }
}

/// The file names an example consists of, document first.
pub open spec fn example_files(example: Example) -> Seq<Seq<char>> {
    match example {
        Example::Arm => seq![
            "arm.riggen"@,
            "base.stl"@,
            "shoulder.stl"@,
            "upper.stl"@,
            "fore.stl"@,
        ],
    }
}

impl Example {
    /// Every example's name, in the order `--help` lists them.
    pub const NAMES: [&'static str; 1] = ["arm"];

    /// The example called `name`.
    pub fn from_name(name: &str) -> (example: Option<Example>)
        ensures
            example == example_named(name@),
    {
        let chars = crate::text::chars_of(name);
        proof {
            reveal_strlit("arm");
        }
        if chars.len() == 3 && chars[0] == 'a' && chars[1] == 'r' && chars[2] == 'm' {
            assert(chars@ == "arm"@);
            Some(Example::Arm)
        } else {
            assert(name@ != "arm"@) by {
                if name@ == "arm"@ {
                    assert(chars@[0] == 'a' && chars@[1] == 'r' && chars@[2] == 'm');
                }
            }
            None
        }
    }

    /// The names of the files the example needs, document first; what
    /// unpacking it writes and what a drop of it delivers.
    pub fn files(self) -> (files: Vec<&'static str>)
        ensures
            files@.map_values(|f: &'static str| f@) == example_files(self),
    {
        match self {
            Example::Arm => {
                let files = vec!["arm.riggen", "base.stl", "shoulder.stl", "upper.stl", "fore.stl"];
                assert(files@.map_values(|f: &'static str| f@) == example_files(self));
                files
            },
        }
    }

    /// The document file to open, once extracted.
    pub fn document(self) -> (document: &'static str)
        ensures
            document@ == example_files(self)[0],
    {
        match self {
            Example::Arm => "arm.riggen",
        }
    }

    /// The example's name: what `--example` takes and what its directory is
    /// called after.
    pub fn name(self) -> (name: &'static str)
        ensures
            name@ == example_name(self),
            example_named(name@) == Some(self),
    {
        match self {
            Example::Arm => "arm",
        }
    }
}

} // verus!
