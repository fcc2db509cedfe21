//! Locating on-disk assets under the project root.
//!
//! A [`Path`] holds the root explicitly, as a sequence of components; it is
//! constructed once at startup, from wherever the surrounding program finds
//! its root, and passed to every component that needs it — there is no
//! process-wide singleton.  The well-known folders (assets, data, models)
//! hang off the root at fixed places.

use vstd::prelude::*;

verus! {

/// The project root, as path components from the filesystem root or any
/// other anchor the surrounding program chose.
#[derive(Debug, PartialEq)]
pub struct Path {
    root: Vec<String>,
}

fn clone_strings(strings: &Vec<String>) -> (r: Vec<String>)
    ensures
        r.deep_view() == strings.deep_view(),
{
    let mut out: Vec<String> = Vec::new();
    let mut i: usize = 0;
    while i < strings.len()
        invariant
            i <= strings@.len(),
            out.deep_view() =~= strings.deep_view().take(i as int),
        decreases strings@.len() - i,
    {
        out.push(strings[i].clone());
        proof {
            assert(strings.deep_view().take(i + 1) =~= strings.deep_view().take(i as int).push(
                strings.deep_view()[i as int],
            ));
            assert(out.deep_view() =~= strings.deep_view().take(i + 1));
        }
        i += 1;
    }
    proof {
        assert(strings.deep_view().take(strings.deep_view().len() as int)
            =~= strings.deep_view());
    }
    out
}

impl Path {
    /// A root chosen by the surrounding program.
    pub fn new(root: Vec<String>) -> (r: Path)
        ensures
            r@ == root.deep_view(),
    {
        Path { root }
    }

    /// The root's components, each folder or file name appended in order.
    pub fn join_root(&self, file_folder_names: Vec<&str>) -> (r: Vec<String>)
        ensures
            r.deep_view() == self@ + file_folder_names.deep_view(),
    {
        let mut joined = clone_strings(&self.root);
        let mut i: usize = 0;
        while i < file_folder_names.len()
            invariant
                i <= file_folder_names@.len(),
                joined.deep_view() =~= self@ + file_folder_names.deep_view().take(i as int),
            decreases file_folder_names@.len() - i,
        {
            joined.push(file_folder_names[i].to_owned());
            proof {
                assert(file_folder_names.deep_view().take(i + 1)
                    =~= file_folder_names.deep_view().take(i as int).push(
                    file_folder_names.deep_view()[i as int],
                ));
                assert(joined.deep_view() =~= (self@ + file_folder_names.deep_view().take(
                    i as int,
                )).push(file_folder_names.deep_view()[i as int]));
                assert(joined.deep_view() =~= self@ + file_folder_names.deep_view().take(i + 1));
            }
            i += 1;
        }
        proof {
            assert(file_folder_names.deep_view().take(file_folder_names.deep_view().len() as int)
                =~= file_folder_names.deep_view());
        }
        joined
    }

    /// A path with one more folder or file name appended.
    pub fn join(path: &Vec<String>, file_folder_name: String) -> (r: Vec<String>)
        ensures
            r.deep_view() == path.deep_view().push(file_folder_name@),
    {
        let mut joined = clone_strings(path);
        joined.push(file_folder_name);
        proof {
            assert(joined.deep_view() =~= path.deep_view().push(file_folder_name@));
        }
        joined
    }

    /// The assets folder under the root.
    pub fn get_assets(&self) -> (r: Vec<String>)
        ensures
            r.deep_view() == self@.push("assets"@),
    {
        let mut joined = clone_strings(&self.root);
        joined.push("assets".to_owned());
        proof {
            assert(joined.deep_view() =~= self@.push("assets"@));
        }
        joined
    }

    /// A data file under the assets folder.
    pub fn get_data(&self, file_name: &str) -> (r: Vec<String>)
        ensures
            r.deep_view() == self@.push("assets"@).push("data"@).push(file_name@),
    {
        let mut joined = self.get_assets();
        joined.push("data".to_owned());
        joined.push(file_name.to_owned());
        proof {
            assert(joined.deep_view() =~= self@.push("assets"@).push("data"@).push(file_name@));
        }
        joined
    }

    /// The models folder under the assets folder.
    pub fn get_models(&self) -> (r: Vec<String>)
        ensures
            r.deep_view() == self@.push("assets"@).push("models"@),
    {
        let mut joined = self.get_assets();
        joined.push("models".to_owned());
        proof {
            assert(joined.deep_view() =~= self@.push("assets"@).push("models"@));
        }
        joined
    }

    /// A model file under the models folder.
    pub fn get_model(&self, file_name: &str) -> (r: Vec<String>)
        ensures
            r.deep_view() == self@.push("assets"@).push("models"@).push(file_name@),
    {
        let mut joined = self.get_models();
        joined.push(file_name.to_owned());
        proof {
            assert(joined.deep_view() =~= self@.push("assets"@).push("models"@).push(file_name@));
        }
        joined
    }
}

impl View for Path {
    type V = Seq<Seq<char>>;

    closed spec fn view(&self) -> Seq<Seq<char>> {
        self.root.deep_view()
    }
}

} // verus!
