//! Template names and output paths. A template is a file whose name ends in
//! `.tera`; its output goes to the same relative path without that ending.

use vstd::prelude::*;
use vstd::string::*;

verus! {

/// The ending that marks a template file.
pub open spec fn extension() -> Seq<char> {
    seq!['.', 't', 'e', 'r', 'a']
}

/// Whether `name` is a file's name, possibly with directories before it,
/// followed by the template ending. The file's name is more than the
/// ending alone.
pub open spec fn is_template_name(name: Seq<char>) -> bool {
    &&& name.len() > 5
    &&& name.subrange(name.len() - 5, name.len() as int) == extension()
    &&& name[name.len() - 6] != '/'
}

/// The output path of the template `name`: the name without the ending.
/// Any other name stands for itself.
pub open spec fn output_path_of(name: Seq<char>) -> Seq<char> {
    if is_template_name(name) {
        name.subrange(0, name.len() - 5)
    } else {
        name
    }
}

/// The name of the template whose output goes to `path`.
pub open spec fn template_name_of(path: Seq<char>) -> Seq<char> {
    path + extension()
}

/// Whether `name` names a template file.
pub fn has_template_extension(name: &str) -> (r: bool)
    ensures
        r == is_template_name(name@),
{
    let n = name.unicode_len();
    if n <= 5 {
        return false;
    }
    let ending = ".tera";
    proof {
        reveal_strlit(".tera");
        assert(ending@ =~= extension());
    }
    let ghost tail = name@.subrange(n - 5, n as int);
    let mut i: usize = 0;
    while i < 5
        invariant
            i <= 5,
            n == name@.len(),
            n > 5,
            ending@ == extension(),
            tail == name@.subrange(n - 5, n as int),
            forall|j: int| 0 <= j < i ==> tail[j] == extension()[j],
        decreases 5 - i,
    {
        if name.get_char(n - 5 + i) != ending.get_char(i) {
            assert(tail[i as int] != extension()[i as int]);
            return false;
        }
        i = i + 1;
    }
    assert(tail =~= extension());
    name.get_char(n - 6) != '/'
}

/// Where the output of the template `name` goes.
pub fn output_path(name: &str) -> (r: String)
    ensures
        r@ == output_path_of(name@),
{
    if has_template_extension(name) {
        let n = name.unicode_len();
        name.substring_char(0, n - 5).to_owned()
    } else {
        name.to_owned()
    }
}

/// The template whose output goes to `path`.
pub fn template_name(path: &str) -> (r: String)
    ensures
        r@ == template_name_of(path@),
{
    let ending = ".tera";
    proof {
        reveal_strlit(".tera");
        assert(ending@ =~= extension());
    }
    path.to_owned().concat(ending)
}

/// Going from a template's name to its output path and back gives the name.
pub proof fn lemma_name_round_trip(name: Seq<char>)
    requires
        is_template_name(name),
    ensures
        template_name_of(output_path_of(name)) == name,
{
    assert(template_name_of(output_path_of(name)) =~= name);
}

/// Going from an output path to its template's name and back gives the
/// path, for a path that names a file.
pub proof fn lemma_path_round_trip(path: Seq<char>)
    requires
        path.len() > 0,
        path.last() != '/',
    ensures
        is_template_name(template_name_of(path)),
        output_path_of(template_name_of(path)) == path,
{
    let name = template_name_of(path);
    assert(name.subrange(name.len() - 5, name.len() as int) =~= extension());
    assert(name.subrange(0, name.len() - 5) =~= path);
}

/// Two templates never share an output path.
pub proof fn lemma_output_paths_differ(a: Seq<char>, b: Seq<char>)
    requires
        is_template_name(a),
        is_template_name(b),
        output_path_of(a) == output_path_of(b),
    ensures
        a == b,
{
    lemma_name_round_trip(a);
    lemma_name_round_trip(b);
}

} // verus!
