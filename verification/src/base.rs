use crate::text::chars_of;
use vstd::prelude::*;
use vstd::string::*;

verus! {

/// The text of a string that may be absent.
pub open spec fn text_of(value: Option<String>) -> Option<Seq<char>> {
    match value {
        Some(s) => Some(s@),
        None => None,
    }
}

/// `prefix` without its last character where that is a slash.
pub open spec fn trim_one_slash(prefix: Seq<char>) -> Seq<char> {
    if prefix.len() > 0 && prefix.last() == '/' {
        prefix.drop_last()
    } else {
        prefix
    }
}

/// The text is the home shorthand `~` alone.
pub open spec fn is_home(trimmed: Seq<char>) -> bool {
    trimmed.len() == 1 && trimmed[0] == '~'
}

/// The text starts with `~/`.
pub open spec fn is_under_home(trimmed: Seq<char>) -> bool {
    trimmed.len() >= 2 && trimmed[0] == '~' && trimmed[1] == '/'
}

/// Resolving `prefix` asks for the user's home directory.
pub open spec fn needs_home(prefix: Seq<char>) -> bool {
    is_home(trim_one_slash(prefix)) || is_under_home(trim_one_slash(prefix))
}

/// `rest` adjoined to the directory `base`: a `rest` that starts at the root
/// stands for itself, any other follows `base` and one separating slash.
pub open spec fn join_path(base: Seq<char>, rest: Seq<char>) -> Seq<char> {
    if rest.len() > 0 && rest[0] == '/' {
        rest
    } else if base.len() == 0 || base.last() == '/' {
        base + rest
    } else {
        base + seq!['/'] + rest
    }
}

/// The directory to scan for the text before the segment being typed, given
/// the home directory where it is known. No prefix is the working directory
/// `.`; a lone slash is the root; `~` is the home directory and `~/rest` is
/// `rest` under it, both without a result while the home directory is
/// unknown; anything else is the path itself, less one trailing slash.
pub open spec fn base_dir_of(prefix: Seq<char>, home: Option<Seq<char>>) -> Option<Seq<char>> {
    let trimmed = trim_one_slash(prefix);
    if prefix.len() == 0 {
        Some(seq!['.'])
    } else if trimmed.len() == 0 {
        Some(seq!['/'])
    } else if is_home(trimmed) {
        home
    } else if is_under_home(trimmed) {
        match home {
            Some(dir) => Some(join_path(dir, trimmed.skip(2))),
            None => None,
        }
    } else {
        Some(trimmed)
    }
}

/// Where the home directory is not asked for, it makes no difference.
pub proof fn lemma_base_without_home(prefix: Seq<char>, home: Option<Seq<char>>)
    requires
        !needs_home(prefix),
    ensures
        base_dir_of(prefix, home) == base_dir_of(prefix, None),
        base_dir_of(prefix, home) is Some,
{
}

/// `dirs::home_dir`, as text: the user's home directory, or nothing where it
/// cannot be determined or is no Unicode text. Nothing is claimed of it.
#[verifier::external_body]
pub(crate) fn home_dir_text() -> (home: Option<String>) {
    dirs::home_dir().and_then(|path| path.into_os_string().into_string().ok())
}

/// `rest` adjoined to the directory `base`.
pub fn join_to_base(base: String, rest: &str) -> (joined: String)
    ensures
        joined@ == join_path(base@, rest@),
{
    let rest_len = rest.unicode_len();
    if rest_len > 0 && rest.get_char(0) == '/' {
        return rest.to_owned();
    }
    let base_len = base.as_str().unicode_len();
    let mut joined = base;
    if base_len > 0 && joined.as_str().get_char(base_len - 1) != '/' {
        proof {
            reveal_strlit("/");
            assert("/"@ =~= seq!['/']);
        }
        joined.append("/");
    }
    joined.append(rest);
    joined
}

/// Whether resolving `parent_prefix` asks for the home directory.
pub fn prefix_needs_home(parent_prefix: &str) -> (needed: bool)
    ensures
        needed == needs_home(parent_prefix@),
{
    let chars = chars_of(parent_prefix);
    let len = chars.len();
    let trimmed_len = if len > 0 && chars[len - 1] == '/' {
        len - 1
    } else {
        len
    };
    assert(trim_one_slash(parent_prefix@) =~= parent_prefix@.take(trimmed_len as int));
    trimmed_len >= 1 && chars[0] == '~' && (trimmed_len == 1 || chars[1] == '/')
}

/// The directory to scan for `parent_prefix`, with the home directory as
/// `home` gives it.
pub fn resolve_base(parent_prefix: &str, home: Option<String>) -> (base: Option<String>)
    ensures
        text_of(base) == base_dir_of(parent_prefix@, text_of(home)),
{
    let chars = chars_of(parent_prefix);
    let len = chars.len();
    if len == 0 {
        proof {
            reveal_strlit(".");
            assert("."@ =~= seq!['.']);
        }
        return Some(".".to_owned());
    }
    let trimmed_len = if chars[len - 1] == '/' {
        len - 1
    } else {
        len
    };
    assert(trim_one_slash(parent_prefix@) =~= parent_prefix@.subrange(0, trimmed_len as int));
    if trimmed_len == 0 {
        proof {
            reveal_strlit("/");
            assert("/"@ =~= seq!['/']);
        }
        return Some("/".to_owned());
    }
    if trimmed_len == 1 && chars[0] == '~' {
        return home;
    }
    if trimmed_len >= 2 && chars[0] == '~' && chars[1] == '/' {
        return match home {
            Some(dir) => {
                let rest = parent_prefix.substring_char(2, trimmed_len);
                assert(rest@ =~= trim_one_slash(parent_prefix@).skip(2));
                Some(join_to_base(dir, rest))
            },
            None => None,
        };
    }
    Some(parent_prefix.substring_char(0, trimmed_len).to_owned())
}

/// The directory to scan for `parent_prefix`. The home directory is looked up
/// only where the prefix asks for it.
pub fn path_completion_base(parent_prefix: &str) -> (base: Option<String>)
    ensures
        !needs_home(parent_prefix@) ==> text_of(base) == base_dir_of(parent_prefix@, None),
        exists|home: Option<Seq<char>>| text_of(base) == #[trigger] base_dir_of(
            parent_prefix@,
            home,
        ),
{
    if prefix_needs_home(parent_prefix) {
        let home = home_dir_text();
        let ghost known = text_of(home);
        let base = resolve_base(parent_prefix, home);
        assert(text_of(base) == base_dir_of(parent_prefix@, known));
        base
    } else {
        let base = resolve_base(parent_prefix, None);
        assert(text_of(base) == base_dir_of(parent_prefix@, None));
        base
    }
}

} // verus!
