//! Rotation profiles: each profile is a folder holding a rotations file and
//! an abilities file.

use vstd::prelude::*;
use crate::text::{chars_vec, contains_chars, contains_seq};

verus! {

/// The abilities file among a profile folder's entries: the last entry whose
/// path holds `Abilities`, or empty when there is none.
pub open spec fn abilities_entry(children: Seq<Seq<char>>) -> Seq<char>
    decreases children.len(),
{
    if children.len() == 0 {
        Seq::empty()
    } else if contains_seq(children.last(), "Abilities"@) {
        children.last()
    } else {
        abilities_entry(children.drop_last())
    }
}

/// The rotations file among a profile folder's entries: the last entry whose
/// path holds `Rotations` but not `Abilities`, or empty when there is none.
pub open spec fn rotations_entry(children: Seq<Seq<char>>) -> Seq<char>
    decreases children.len(),
{
    if children.len() == 0 {
        Seq::empty()
    } else if !contains_seq(children.last(), "Abilities"@) && contains_seq(children.last(), "Rotations"@) {
        children.last()
    } else {
        rotations_entry(children.drop_last())
    }
}

/// A profile as (name, folder path, rotations path, abilities path).
pub type ProfileView = (Seq<char>, Seq<char>, Seq<char>, Seq<char>);

/// The profile read from a folder at `path` named `dir_name` with these
/// entries (paths, in listing order). An empty folder gets no name.
pub open spec fn profile_spec(path: Seq<char>, dir_name: Option<String>, children: Seq<Seq<char>>) -> ProfileView {
    (
        if children.len() > 0 { dir_name.unwrap()@ } else { Seq::empty() },
        path,
        rotations_entry(children),
        abilities_entry(children),
    )
}

/// A rotation profile.
#[derive(Debug, PartialEq, Clone)]
pub struct Profile {
    profile_name: String,
    profile_path: String,
    rotation_path: String,
    abilities_path: String,
}

impl View for Profile {
    type V = ProfileView;

    closed spec fn view(&self) -> ProfileView {
        (self.profile_name@, self.profile_path@, self.rotation_path@, self.abilities_path@)
    }
}

/// The path strings of a folder listing.
pub open spec fn paths_view(children: Seq<String>) -> Seq<Seq<char>> {
    children.map_values(|c: String| c@)
}

impl Profile {
    /// The profile's name.
    pub fn get_profile_name(&self) -> (r: String)
        ensures
            r@ == self@.0,
    {
        self.profile_name.clone()
    }

    /// The profile folder's path.
    pub fn get_profile_path(&self) -> (r: String)
        ensures
            r@ == self@.1,
    {
        self.profile_path.clone()
    }

    /// The rotations file's path.
    pub fn get_rotation_path(&self) -> (r: String)
        ensures
            r@ == self@.2,
    {
        self.rotation_path.clone()
    }

    /// The abilities file's path.
    pub fn get_abilities_path(&self) -> (r: String)
        ensures
            r@ == self@.3,
    {
        self.abilities_path.clone()
    }

    /// The profile with every field empty.
    pub fn default() -> (r: Self)
        ensures
            r@ == (Seq::<char>::empty(), Seq::<char>::empty(), Seq::<char>::empty(), Seq::<char>::empty()),
    {
        Profile {
            profile_name: String::new(),
            profile_path: String::new(),
            rotation_path: String::new(),
            abilities_path: String::new(),
        }
    }

    /// The profile of the folder at `profile_path`, whose own name is
    /// `dir_name` and whose entries are `children` (full paths, in listing
    /// order). The name is only taken when the folder has entries.
    pub fn new(profile_path: String, dir_name: Option<String>, children: Vec<String>) -> (r: Self)
        requires
            children@.len() > 0 ==> dir_name is Some,
        ensures
            r@ == profile_spec(profile_path@, dir_name, paths_view(children@)),
    {
        let ghost kids = paths_view(children@);
        let mut profile_name = String::new();
        let mut rotation_path = String::new();
        let mut abilities_path = String::new();
        let abilities_key = chars_vec("Abilities");
        let rotations_key = chars_vec("Rotations");
        let mut i: usize = 0;
        while i < children.len()
            invariant
                i <= children@.len(),
                kids == paths_view(children@),
                abilities_key@ == "Abilities"@,
                rotations_key@ == "Rotations"@,
                children@.len() > 0 ==> dir_name is Some,
                profile_name@ == if i > 0 { dir_name.unwrap()@ } else { Seq::<char>::empty() },
                abilities_path@ == abilities_entry(kids.take(i as int)),
                rotation_path@ == rotations_entry(kids.take(i as int)),
            decreases children.len() - i,
        {
            assert(kids.take(i + 1).drop_last() =~= kids.take(i as int));
            assert(kids.take(i + 1).last() == children@[i as int]@);
            if profile_name.as_str().is_empty() {
                match &dir_name {
                    Some(n) => {
                        profile_name = n.clone();
                    },
                    None => {},
                }
            }
            let entry = chars_vec(children[i].as_str());
            if contains_chars(&entry, &abilities_key) {
                abilities_path = children[i].clone();
            } else if contains_chars(&entry, &rotations_key) {
                rotation_path = children[i].clone();
            }
            i = i + 1;
        }
        assert(kids.take(children@.len() as int) =~= kids);
        Profile { profile_name, profile_path, rotation_path, abilities_path }
    }
}

/// One profile folder as listed on disk: its path, its own name (when the
/// path has one) and the full paths of its entries in listing order.
#[derive(Debug, Clone)]
pub struct ProfileListing {
    pub path: String,
    pub dir_name: Option<String>,
    pub children: Vec<String>,
}

/// Whether a listing can be read as a profile: a folder with entries has a name.
pub open spec fn listing_ok(l: ProfileListing) -> bool {
    l.children@.len() > 0 ==> l.dir_name is Some
}

/// All the profiles of a profiles folder.
#[derive(Debug, PartialEq, Clone)]
pub struct Profiles {
    list_of_profiles: Vec<Profile>,
}

impl Profiles {
    /// The profiles, in listing order.
    pub closed spec fn profiles(&self) -> Seq<ProfileView> {
        self.list_of_profiles@.map_values(|p: Profile| p@)
    }

    /// One profile for each folder of `listings`, in order.
    pub fn new(listings: Vec<ProfileListing>) -> (r: Self)
        requires
            forall|i: int| 0 <= i < listings@.len() ==> listing_ok(#[trigger] listings@[i]),
        ensures
            r.profiles().len() == listings@.len(),
            forall|i: int|
                0 <= i < listings@.len() ==> #[trigger] r.profiles()[i] == profile_spec(
                    listings@[i].path@,
                    listings@[i].dir_name,
                    paths_view(listings@[i].children@),
                ),
    {
        let mut list: Vec<Profile> = Vec::new();
        let mut rest = listings;
        let ghost all = rest@;
        while rest.len() > 0
            invariant
                list@.len() + rest@.len() == all.len(),
                rest@ == all.skip(list@.len() as int),
                forall|i: int| 0 <= i < all.len() ==> listing_ok(#[trigger] all[i]),
                forall|i: int|
                    0 <= i < list@.len() ==> #[trigger] list@[i]@ == profile_spec(
                        all[i].path@,
                        all[i].dir_name,
                        paths_view(all[i].children@),
                    ),
            decreases rest.len(),
        {
            let ghost k = list@.len() as int;
            assert(rest@[0] == all[k]);
            let l = rest.remove(0);
            assert(listing_ok(all[k]));
            let p = Profile::new(l.path, l.dir_name, l.children);
            list.push(p);
            assert(rest@ =~= all.skip(list@.len() as int));
        }
        assert(list@.map_values(|p: Profile| p@).len() == all.len());
        Profiles { list_of_profiles: list }
    }

    /// The profiles.
    pub fn get_profiles(&self) -> (r: &Vec<Profile>)
        ensures
            r@.map_values(|p: Profile| p@) == self.profiles(),
    {
        &self.list_of_profiles
    }
}

} // verus!
