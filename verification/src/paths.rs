//! Unix paths as texts.
use vstd::prelude::*;
use vstd::string::StringExecFns;

use crate::text::{chars_of, string_of};

verus! {

/// A path followed by another: an absolute one stands alone, any other is set apart by one slash.
pub open spec fn joined_path(base: Seq<char>, part: Seq<char>) -> Seq<char> {
    if part.len() > 0 && part[0] == '/' {
        part
    } else if base.len() == 0 || base.last() == '/' {
        base + part
    } else {
        base + "/"@ + part
    }
}

/// A path followed by another.
pub fn join_path(base: &str, part: &str) -> (r: String)
    ensures
        r@ == joined_path(base@, part@),
{
    let first = chars_of(part);
    let last = chars_of(base);
    if first.len() > 0 && first[0] == '/' {
        return part.to_owned();
    }
    let mut r = base.to_owned();
    if last.len() > 0 && last[last.len() - 1] != '/' {
        r.append("/");
    }
    r.append(part);
    r
}

/// Where the last component of a path begins: after the last slash.
pub open spec fn last_start(path: Seq<char>) -> nat
    decreases path.len(),
{
    if path.len() == 0 || path.last() == '/' {
        path.len()
    } else {
        last_start(path.drop_last())
    }
}

/// The name at the end of a path. Slashes at the end and components `.` count for nothing; a path
/// that ends in `..` has no name, nor has one without components.
pub open spec fn final_name(path: Seq<char>) -> Option<Seq<char>>
    decreases path.len(),
{
    if path.len() == 0 {
        None
    } else if path.last() == '/' {
        final_name(path.drop_last())
    } else {
        let start = last_start(path) as int;
        let name = path.skip(start);
        if start >= path.len() {
            None
        } else if name == seq!['.'] {
            final_name(path.take(start))
        } else if name == seq!['.', '.'] {
            None
        } else {
            Some(name)
        }
    }
}

/// The last component of a path that does not end in a slash is not empty.
proof fn lemma_last_start(path: Seq<char>)
    ensures
        last_start(path) <= path.len(),
        path.len() > 0 && path.last() != '/' ==> last_start(path) < path.len(),
    decreases path.len(),
{
    if path.len() > 0 && path.last() != '/' {
        lemma_last_start(path.drop_last());
    }
}

/// Where the last component begins of the first `end` characters.
fn find_last_start(chars: &Vec<char>, end: usize) -> (r: usize)
    requires
        end <= chars@.len(),
    ensures
        r == last_start(chars@.take(end as int)),
        r <= end,
{
    let mut start = end;
    while start > 0 && chars[start - 1] != '/'
        invariant
            start <= end <= chars@.len(),
            last_start(chars@.take(end as int)) == last_start(chars@.take(start as int)),
        decreases start,
    {
        proof {
            assert(chars@.take(start as int).drop_last() =~= chars@.take(start - 1));
        }
        start -= 1;
    }
    start
}

/// The name at the end of a path.
pub fn file_name(path: &str) -> (r: Option<String>)
    ensures
        match r {
            Some(name) => final_name(path@) == Some(name@),
            None => final_name(path@) is None,
        },
{
    let chars = chars_of(path);
    let mut end = chars.len();
    proof {
        assert(chars@.take(end as int) =~= path@);
    }
    while end > 0
        invariant
            chars@ == path@,
            end <= chars@.len(),
            final_name(path@) == final_name(chars@.take(end as int)),
        decreases end,
    {
        let ghost rest = chars@.take(end as int);
        if chars[end - 1] == '/' {
            proof {
                assert(rest.drop_last() =~= chars@.take(end - 1));
            }
            end -= 1;
        } else {
            let start = find_last_start(&chars, end);
            proof {
                lemma_last_start(rest);
                assert(rest.skip(start as int) =~= chars@.subrange(start as int, end as int));
                assert(rest.take(start as int) =~= chars@.take(start as int));
            }
            if end - start == 1 && chars[start] == '.' {
                proof {
                    assert(rest.skip(start as int) =~= seq!['.']);
                }
                end = start;
            } else if end - start == 2 && chars[start] == '.' && chars[start + 1] == '.' {
                proof {
                    assert(rest.skip(start as int) =~= seq!['.', '.']);
                    assert(seq!['.', '.'].len() != seq!['.'].len());
                }
                return None;
            } else {
                proof {
                    let name = rest.skip(start as int);
                    if name == seq!['.'] {
                        assert(name.len() == 1 && name[0] == '.');
                    }
                    if name == seq!['.', '.'] {
                        assert(name.len() == 2 && name[0] == '.' && name[1] == '.');
                    }
                }
                return Some(string_of(&chars, start, end));
            }
        }
    }
    proof {
        assert(chars@.take(0).len() == 0);
    }
    None
}

/// An absolute path that follows another stands alone; any other comes after it, with a slash
/// between the two where there is none.
pub proof fn law_joined_path(base: Seq<char>, part: Seq<char>)
    ensures
        part.len() > 0 && part[0] == '/' ==> joined_path(base, part) == part,
        !(part.len() > 0 && part[0] == '/') && base.len() == 0 ==> joined_path(base, part) == part,
        !(part.len() > 0 && part[0] == '/') && base.len() > 0 && base.last() == '/' ==> joined_path(
            base,
            part,
        ) == base + part,
        !(part.len() > 0 && part[0] == '/') && base.len() > 0 && base.last() != '/' ==> joined_path(
            base,
            part,
        ) == base + seq!['/'] + part,
{
    reveal_strlit("/");
    assert("/"@ =~= seq!['/']);
    assert(base.len() == 0 ==> base + part =~= part);
}

/// Whether a text is the name of a file: not empty, without a slash, and none of the two names
/// for directories.
pub open spec fn is_name(name: Seq<char>) -> bool {
    &&& name.len() > 0
    &&& forall|i: int| 0 <= i < name.len() ==> #[trigger] name[i] != '/'
    &&& !(name.len() == 1 && name[0] == '.')
    &&& !(name.len() == 2 && name[0] == '.' && name[1] == '.')
}

/// The name at the end of a path: a name alone is its own, a name after a directory is that
/// name, slashes and single dots at the end do not count, and a path that ends in two dots has
/// none.
pub proof fn law_final_name(directory: Seq<char>, name: Seq<char>)
    ensures
        is_name(name) ==> final_name(name) == Some(name),
        is_name(name) ==> final_name(directory + seq!['/'] + name) == Some(name),
        final_name(directory + seq!['/']) == final_name(directory),
        final_name(directory + seq!['/'] + seq!['.']) == final_name(directory),
        final_name(directory + seq!['/'] + seq!['.', '.']) is None,
        final_name(Seq::<char>::empty()) is None,
{
    if is_name(name) {
        lemma_start_after(Seq::empty(), name, false);
        assert(Seq::<char>::empty() + name =~= name);
        assert(name.skip(0) =~= name);
        assert(name.last() == name[name.len() - 1]);
        lemma_start_after(directory, name, true);
        let path = directory + seq!['/'] + name;
        assert(path.last() == name[name.len() - 1]);
        assert(path.skip(directory.len() as int + 1) =~= name);
        if name == seq!['.'] {
            assert(name.len() == 1 && name[0] == '.');
        }
        if name == seq!['.', '.'] {
            assert(name.len() == 2 && name[0] == '.' && name[1] == '.');
        }
    }
    let with_slash = directory + seq!['/'];
    assert(with_slash.last() == '/');
    assert(with_slash.drop_last() =~= directory);
    let dot = with_slash + seq!['.'];
    lemma_start_after(directory, seq!['.'], true);
    assert(dot.last() == '.');
    assert(dot.skip(directory.len() as int + 1) =~= seq!['.']);
    assert(dot.take(directory.len() as int + 1) =~= with_slash);
    let dots = with_slash + seq!['.', '.'];
    lemma_start_after(directory, seq!['.', '.'], true);
    assert(dots.last() == '.');
    assert(dots.skip(directory.len() as int + 1) =~= seq!['.', '.']);
    assert(seq!['.', '.'].len() != seq!['.'].len());
}

/// A component without slashes begins after the slash before it, or at the start of the path.
proof fn lemma_start_after(directory: Seq<char>, name: Seq<char>, slash: bool)
    requires
        forall|i: int| 0 <= i < name.len() ==> #[trigger] name[i] != '/',
        !slash ==> directory.len() == 0,
    ensures
        slash ==> last_start(directory + seq!['/'] + name) == directory.len() + 1,
        !slash ==> last_start(directory + name) == 0,
    decreases name.len(),
{
    let path = if slash {
        directory + seq!['/'] + name
    } else {
        directory + name
    };
    if name.len() == 0 {
        if slash {
            assert(path.last() == '/');
        }
    } else {
        let shorter = name.drop_last();
        lemma_start_after(directory, shorter, slash);
        assert(path.last() == name[name.len() - 1]);
        if slash {
            assert(path.drop_last() =~= directory + seq!['/'] + shorter);
        } else {
            assert(path.drop_last() =~= directory + shorter);
        }
    }
}

/// The name at the end of a path has no slash in it and stands in the path.
pub proof fn law_final_name_is_a_part_of_the_path(path: Seq<char>)
    ensures
        final_name(path) matches Some(name) ==> {
            &&& is_name(name)
            &&& exists|at: int|
                0 <= at && at + name.len() <= path.len() && #[trigger] path.subrange(
                    at,
                    at + name.len(),
                ) == name
        },
    decreases path.len(),
{
    if path.len() > 0 {
        if path.last() == '/' {
            law_final_name_is_a_part_of_the_path(path.drop_last());
            if final_name(path) is Some {
                let name = final_name(path)->0;
                let at = choose|at: int|
                    0 <= at && at + name.len() <= path.drop_last().len()
                        && #[trigger] path.drop_last().subrange(at, at + name.len()) == name;
                assert(path.subrange(at, at + name.len()) =~= path.drop_last().subrange(
                    at,
                    at + name.len(),
                ));
            }
        } else {
            lemma_last_start(path);
            lemma_no_slash_after_start(path);
            let start = last_start(path) as int;
            let name = path.skip(start);
            if name == seq!['.'] {
                law_final_name_is_a_part_of_the_path(path.take(start));
                if final_name(path) is Some {
                    let found = final_name(path)->0;
                    let at = choose|at: int|
                        0 <= at && at + found.len() <= path.take(start).len()
                            && #[trigger] path.take(start).subrange(at, at + found.len()) == found;
                    assert(path.subrange(at, at + found.len()) =~= path.take(start).subrange(
                        at,
                        at + found.len(),
                    ));
                }
            } else if name != seq!['.', '.'] {
                assert(path.subrange(start, start + name.len()) =~= name);
                if name.len() == 1 && name[0] == '.' {
                    assert(name =~= seq!['.']);
                }
                if name.len() == 2 && name[0] == '.' && name[1] == '.' {
                    assert(name =~= seq!['.', '.']);
                }
            }
        }
    }
}

/// There is no slash in the last component.
proof fn lemma_no_slash_after_start(path: Seq<char>)
    ensures
        forall|i: int| last_start(path) <= i < path.len() ==> #[trigger] path[i] != '/',
    decreases path.len(),
{
    if path.len() > 0 && path.last() != '/' {
        lemma_no_slash_after_start(path.drop_last());
        assert forall|i: int| last_start(path) <= i < path.len() implies #[trigger] path[i]
            != '/' by {
            if i < path.len() - 1 {
                assert(path.drop_last()[i] == path[i]);
            }
        }
    }
}

} // verus!
