//! The last component of a path.
use vstd::prelude::*;

verus! {

/// Where the last component of `path` starts: behind the last slash, or at the front.
pub open spec fn component_start(path: Seq<char>) -> nat
    decreases path.len(),
{
    if path.len() == 0 || path.last() == '/' {
        path.len()
    } else {
        component_start(path.drop_last())
    }
}

/// The name of the file that `path` leads to. Empty components and single dots do not
/// count; where the last component that does is a double dot, or where there is none, the
/// path has no file name.
pub open spec fn path_file_name(path: Seq<char>) -> Option<Seq<char>>
    decreases path.len(),
{
    let start = component_start(path) as int;
    let component = path.skip(start);
    if component.len() == 0 || component == seq!['.'] {
        if 0 < start <= path.len() {
            path_file_name(path.take(start - 1))
        } else {
            None
        }
    } else if component == seq!['.', '.'] {
        None
    } else {
        Some(component)
    }
}

/// The name of the file that `path` leads to, if there is one.
pub fn file_name(path: &str) -> (name: Option<String>)
    ensures
        match (name, path_file_name(path@)) {
            (Some(name), Some(expected)) => name@ == expected,
            (None, None) => true,
            _ => false,
        },
{
    let mut end: usize = path.unicode_len();
    assert(path@.take(end as int) =~= path@);
    loop
        invariant
            end <= path@.len(),
            path_file_name(path@) == path_file_name(path@.take(end as int)),
        decreases end,
    {
        let ghost front = path@.take(end as int);
        let mut start: usize = end;
        assert(front.take(start as int) =~= front);
        while start > 0 && path.get_char(start - 1) != '/'
            invariant
                start <= end <= path@.len(),
                front == path@.take(end as int),
                component_start(front) == component_start(front.take(start as int)),
            decreases start,
        {
            assert(front.take(start as int).drop_last() =~= front.take(start - 1));
            start -= 1;
        }
        let component = path.substring_char(start, end);
        assert(component_start(front) == start) by {
            if start > 0 {
                assert(front.take(start as int).last() == '/');
            }
        }
        assert(component@ =~= front.skip(start as int));
        let len: usize = end - start;
        let one_dot: bool = len == 1 && component.get_char(0) == '.';
        assert(one_dot <==> component@ =~= seq!['.']);
        if len == 0 || one_dot {
            if start == 0 {
                return None;
            }
            assert(front.take(start - 1) =~= path@.take(start - 1));
            end = start - 1;
        } else {
            let two_dots: bool = len == 2 && component.get_char(0) == '.' && component.get_char(1)
                == '.';
            assert(two_dots <==> component@ =~= seq!['.', '.']);
            if two_dots {
                return None;
            }
            return Some(component.to_owned());
        }
    }
}

} // verus!
