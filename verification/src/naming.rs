//! Where the parts go: the names of the output files.

use vstd::prelude::*;
use vstd::string::*;
use crate::model::SplitArgs;
use crate::text::{decimal, push_decimal};

verus! {

/// The name of the file that holds part `part_index`: the base name, then
/// `_part` and the number of the part, unpadded, then `.pdf`.
pub open spec fn part_file_name_of(basename: Seq<char>, part_index: nat) -> Seq<char> {
    basename + "_part"@ + decimal(part_index) + ".pdf"@
}

/// The name of the file that holds part `part_index` of a split whose
/// output files share the base name `basename`.
pub fn part_file_name(basename: &str, part_index: usize) -> (name: String)
    ensures
        name@ == part_file_name_of(basename@, part_index as nat),
{
    let mut name: String = String::from_str(basename);
    name.append("_part");
    push_decimal(&mut name, part_index);
    name.append(".pdf");
    name
}

impl SplitArgs {
    /// The base name of the output files: the one that was asked for, and
    /// `output` where none was.
    pub open spec fn basename_of(self) -> Seq<char> {
        match self.output_basename {
            Some(name) => name@,
            None => "output"@,
        }
    }

    /// The directory of the output files: the one that was asked for, and the
    /// current directory where none was.
    pub open spec fn directory_of(self) -> Seq<char> {
        match self.output_dir {
            Some(dir) => dir@,
            None => "."@,
        }
    }

    /// The base name of the output files.
    pub fn basename(&self) -> (name: &str)
        ensures
            name@ == self.basename_of(),
    {
        match &self.output_basename {
            Some(name) => name.as_str(),
            None => "output",
        }
    }

    /// The directory in which the output files are written.
    pub fn directory(&self) -> (dir: &str)
        ensures
            dir@ == self.directory_of(),
    {
        match &self.output_dir {
            Some(dir) => dir.as_str(),
            None => ".",
        }
    }

    /// The name of the file that holds part `part_index` of this split.
    pub fn part_file_name(&self, part_index: usize) -> (name: String)
        ensures
            name@ == part_file_name_of(self.basename_of(), part_index as nat),
    {
        part_file_name(self.basename(), part_index)
    }
}

} // verus!
