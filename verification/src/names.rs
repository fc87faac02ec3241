//! Keys under which names are compared. How a name becomes its key is the
//! business of the catalog network; everything here works for any function
//! that gives the same key to the same name.
use vstd::prelude::*;

verus! {

/// `f` can be asked for the key of every name, and what it answers depends on
/// the characters of the name alone.
pub open spec fn is_name_fn<F: Fn(&str) -> String>(f: &F) -> bool {
    &&& forall|x: &str| #[trigger] f.requires((x,))
    &&& forall|x: &str, y: &str, a: String, b: String|
        #[trigger] f.ensures((x,), a) && #[trigger] f.ensures((y,), b) && x@ == y@ ==> a@ == b@
}

/// Whether `f` answers `key` for some text with the characters `name`.
pub open spec fn answers<F: Fn(&str) -> String>(f: &F, name: Seq<char>, key: Seq<char>) -> bool {
    exists|x: &str, a: String| x@ == name && a@ == key && #[trigger] f.ensures((x,), a)
}

/// The key that `f` gives to a name.
pub open spec fn name_key<F: Fn(&str) -> String>(f: &F, name: Seq<char>) -> Seq<char> {
    choose|key: Seq<char>| answers(f, name, key)
}

/// What `f` computes, as a function from names to keys.
pub open spec fn keys_by<F: Fn(&str) -> String>(f: &F) -> spec_fn(Seq<char>) -> Seq<char> {
    |name: Seq<char>| name_key(f, name)
}

/// Asks `f` for the key of `name`.
pub fn key_of<F: Fn(&str) -> String>(f: &F, name: &str) -> (r: String)
    requires
        is_name_fn(f),
    ensures
        r@ == keys_by(f)(name@),
{
    let r = f(name);
    proof {
        assert(answers(f, name@, r@));
        let key = name_key(f, name@);
        let (x, a) = choose|x: &str, a: String|
            x@ == name@ && a@ == key && #[trigger] f.ensures((x,), a);
        assert(a@ == r@);
    }
    r
}

} // verus!
