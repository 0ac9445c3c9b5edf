//! Tab completion: what to complete, which candidates qualify, and how the
//! chosen suggestion is put into the input line.
//!
//! Reading directories is left to the caller. This module decides what has to
//! be read, and turns what was read into the sorted list of suggestions.

use crate::text::{
    byte_count, byte_len, char_is_whitespace, char_views, chars_of, ends_with, has_prefix,
    has_suffix, insert_sorted, is_whitespace, ring_next, ring_previous, same_chars,
    sorted_listing_of, split_words, starts_with, strictly_sorted, string_of, string_views,
    strings_of, sub_chars, words_of,
};
use crate::paths::{
    file_name_of, home_dir, join_name, joined, parent_of, path_file_name, path_parent, resolve,
    resolved,
};
use vstd::prelude::*;

verus! {

/// Which entries of a directory may be suggested.
#[derive(Clone, Copy, Debug, PartialEq, Eq, Structural)]
pub enum PathFilter {
    All,
    DirectoriesOnly,
}

/// What is being completed.
#[derive(Clone, Copy, Debug, PartialEq, Eq, Structural)]
pub enum CompletionKind {
    /// The first word of the line: a command.
    Command,
    /// A later word: a path, for some commands a directory only.
    Path(PathFilter),
}

/// What the input line asks to complete.
#[derive(Clone, Debug, PartialEq, Eq)]
pub struct CompletionRequest {
    pub kind: CompletionKind,
    /// The word under completion, empty where a new word begins.
    pub token: String,
}

/// One entry of a directory, as far as completion looks at it.
#[derive(Clone, Debug, PartialEq, Eq)]
pub struct DirEntryInfo {
    pub name: String,
    pub is_dir: bool,
    pub is_file: bool,
    /// The permission bits of the entry.
    pub mode: u32,
}

/// What was read for a completion request: the entries to choose from and,
/// for a path, the part of the name that is typed already and the path in
/// front of it as it was typed.
#[derive(Clone, Debug, PartialEq, Eq)]
pub struct Listing {
    pub partial_name: String,
    pub base: String,
    pub entries: Vec<DirEntryInfo>,
}

/// What a word that is completed as a path asks for: the directory to read,
/// the part of the name that is typed already, and the path in front of it
/// as it was typed.
#[derive(Clone, Debug, PartialEq, Eq)]
pub struct PathRequest {
    pub search_dir: String,
    pub partial_name: String,
    pub base: String,
}

/// A [`PathRequest`] as plain values.
pub struct PathRequestView {
    pub search_dir: Seq<char>,
    pub partial_name: Seq<char>,
    pub base: Seq<char>,
}

impl View for PathRequest {
    type V = PathRequestView;

    open spec fn view(&self) -> PathRequestView {
        PathRequestView {
            search_dir: self.search_dir@,
            partial_name: self.partial_name@,
            base: self.base@,
        }
    }
}

/// The path that the word `partial` stands for. A word that begins with `~`
/// stands for what follows the `~`, seen from the home directory, and for
/// the empty path where there is no home directory. What follows the `~`
/// keeps its `/`, so `~/name` stands for `/name`, and only `~` and `~name`
/// lead into the home directory.
pub open spec fn path_to_complete(partial: Seq<char>, home: Option<Seq<char>>) -> Seq<char> {
    if has_prefix(partial, "~"@) {
        match home {
            Some(h) => resolved(h, partial.skip(1)),
            None => Seq::empty(),
        }
    } else {
        partial
    }
}

/// The word names a directory whose entries are all wanted: it ends in `/`
/// or is `~`.
pub open spec fn lists_directory(partial: Seq<char>) -> bool {
    has_suffix(partial, "/"@) || partial == "~"@
}

/// What the word `partial` asks for when it is completed as a path from the
/// directory `cwd`, with the home directory `home` if there is one.
///
/// A word that names a directory asks for that directory, seen from `cwd`,
/// and for every name in it. Any other word asks for the directory above the
/// path it stands for, or `cwd` where there is none above, and for the names
/// that begin with its last component.
///
/// The suggestions keep what was typed in front of the last component: the
/// word itself where it does not end in a name, and else the word without
/// its last component.
pub open spec fn path_request_of(
    partial: Seq<char>,
    cwd: Seq<char>,
    home: Option<Seq<char>>,
) -> PathRequestView {
    let path = path_to_complete(partial, home);
    let full = resolved(cwd, path);
    PathRequestView {
        search_dir: if lists_directory(partial) {
            full
        } else {
            match path_parent(full) {
                Some(above) => above,
                None => cwd,
            }
        },
        partial_name: if lists_directory(partial) {
            Seq::empty()
        } else {
            match path_file_name(path) {
                Some(name) => name,
                None => Seq::empty(),
            }
        },
        base: match (path_file_name(partial), path_parent(partial)) {
            (Some(_), Some(above)) => above,
            _ => partial,
        },
    }
}

/// What the word `partial_path` asks for when it is completed as a path
/// from the directory `cwd`, with the home directory `home` if there is one.
pub fn path_request(partial_path: &str, cwd: &str, home: Option<&str>) -> (r: PathRequest)
    ensures
        r@ == path_request_of(
            partial_path@,
            cwd@,
            match home {
                Some(h) => Some(h@),
                None => None,
            },
        ),
{
    proof {
        reveal_strlit("~");
        reveal_strlit("/");
    }
    let partial = chars_of(partial_path);
    let tilde = chars_of("~");
    let slash = chars_of("/");
    let path: Vec<char> = if starts_with(partial.as_slice(), tilde.as_slice()) {
        match home {
            Some(h) => {
                let rest = sub_chars(partial.as_slice(), 1, partial.len());
                resolve(chars_of(h).as_slice(), rest.as_slice())
            },
            None => Vec::new(),
        }
    } else {
        partial.clone()
    };
    let full = string_of(resolve(chars_of(cwd).as_slice(), path.as_slice()).as_slice());
    let lists = ends_with(partial.as_slice(), slash.as_slice()) || same_chars(
        partial.as_slice(),
        tilde.as_slice(),
    );
    let (search_dir, partial_name) = if lists {
        (full, String::new())
    } else {
        let above = match parent_of(full.as_str()) {
            Some(above) => above,
            None => cwd.to_owned(),
        };
        let name = match file_name_of(string_of(path.as_slice()).as_str()) {
            Some(name) => name,
            None => String::new(),
        };
        (above, name)
    };
    let base = match file_name_of(partial_path) {
        Some(_) => match parent_of(partial_path) {
            Some(above) => above,
            None => partial_path.to_owned(),
        },
        None => partial_path.to_owned(),
    };
    PathRequest { search_dir, partial_name, base }
}

/// What the word `partial_path` asks for when it is completed as a path
/// from the directory `cwd`, with the home directory that the system
/// reports.
pub fn path_request_at_home(partial_path: &str, cwd: &str) -> (r: PathRequest)
    ensures
        exists|home: Option<Seq<char>>| r@ == path_request_of(partial_path@, cwd@, home),
{
    let home = home_dir();
    match home {
        Some(h) => {
            let r = path_request(partial_path, cwd, Some(h.as_str()));
            r
        },
        None => {
            let r = path_request(partial_path, cwd, None);
            r
        },
    }
}

/// The state of the completion menu.
pub struct CompletionState {
    pub active: bool,
    pub suggestions: Vec<String>,
    pub selected_index: usize,
}

/// The state of the completion menu as plain values.
pub struct CompletionView {
    pub active: bool,
    pub suggestions: Seq<Seq<char>>,
    pub selected_index: usize,
}

impl View for CompletionState {
    type V = CompletionView;

    open spec fn view(&self) -> CompletionView {
        CompletionView {
            active: self.active,
            suggestions: string_views(self.suggestions@),
            selected_index: self.selected_index,
        }
    }
}

impl CompletionView {
    /// The index is that of a suggestion, or there is no suggestion.
    pub open spec fn wf(self) -> bool {
        self.suggestions.len() == 0 || self.selected_index < self.suggestions.len()
    }

    /// A closed menu without suggestions.
    pub open spec fn closed() -> CompletionView {
        CompletionView { active: false, suggestions: Seq::empty(), selected_index: 0 }
    }

    /// The menu after it was closed: the suggestions are gone, the index
    /// stays.
    pub open spec fn stop(self) -> CompletionView {
        CompletionView { active: false, suggestions: Seq::empty(), ..self }
    }

    /// The menu with the suggestion after the selected one selected, the
    /// first after the last. Without suggestions it is unchanged.
    pub open spec fn next(self) -> CompletionView {
        if self.suggestions.len() == 0 {
            self
        } else {
            CompletionView {
                selected_index: ((self.selected_index + 1) % (self.suggestions.len() as int)) as usize,
                ..self
            }
        }
    }

    /// The menu with the suggestion before the selected one selected, the
    /// last before the first. Without suggestions it is unchanged.
    pub open spec fn previous(self) -> CompletionView {
        if self.suggestions.len() == 0 {
            self
        } else {
            CompletionView {
                selected_index: ((self.selected_index + self.suggestions.len() - 1) % (
                self.suggestions.len() as int)) as usize,
                ..self
            }
        }
    }

    /// The input line and the cursor after the selected suggestion was put
    /// in, if the index selects one. The cursor stands at the end of the
    /// line: its offset is the number of bytes of the line.
    pub open spec fn apply(self, input: Seq<char>) -> Option<(Seq<char>, usize)> {
        if self.selected_index < self.suggestions.len() {
            let text = completed_input(input, self.suggestions[self.selected_index as int]);
            Some((text, byte_len(text) as usize))
        } else {
            None
        }
    }
}

/// The names of the commands that the shell runs itself.
pub open spec fn builtin_names() -> Seq<Seq<char>> {
    seq!["cd"@, "pwd"@, "exit"@]
}

/// Any of the three execute bits is set.
pub open spec fn has_execute_bit(mode: u32) -> bool {
    mode & 0o111 != 0
}

/// `entry` is an executable file whose name starts with `partial`.
pub open spec fn is_executable_match(entry: DirEntryInfo, partial: Seq<char>) -> bool {
    entry.is_file && has_execute_bit(entry.mode) && has_prefix(entry.name@, partial)
}

/// The command names to suggest for `partial`: the built-in names and the
/// names of the executable files among `entries` that start with it.
pub open spec fn executable_names(partial: Seq<char>, entries: Seq<DirEntryInfo>) -> Set<
    Seq<char>,
> {
    Set::new(
        |name: Seq<char>|
            (builtin_names().contains(name) && has_prefix(name, partial)) || exists|i: int|
                0 <= i < entries.len() && is_executable_match(#[trigger] entries[i], partial)
                    && entries[i].name@ == name,
    )
}

/// `entry` passes `filter` and its name starts with `partial_name`.
pub open spec fn is_path_match(entry: DirEntryInfo, partial_name: Seq<char>, filter: PathFilter) -> bool {
    has_prefix(entry.name@, partial_name) && (filter == PathFilter::DirectoriesOnly
        ==> entry.is_dir)
}

/// How the entry is suggested: its name behind `base`, and a `/` at the end
/// of a directory.
pub open spec fn path_suggestion(base: Seq<char>, entry: DirEntryInfo) -> Seq<char> {
    if entry.is_dir {
        joined(base, entry.name@).push('/')
    } else {
        joined(base, entry.name@)
    }
}

/// The paths to suggest: one for each of `entries` that matches.
pub open spec fn path_names(
    partial_name: Seq<char>,
    base: Seq<char>,
    entries: Seq<DirEntryInfo>,
    filter: PathFilter,
) -> Set<Seq<char>> {
    Set::new(
        |text: Seq<char>|
            exists|i: int|
                0 <= i < entries.len() && is_path_match(#[trigger] entries[i], partial_name, filter)
                    && path_suggestion(base, entries[i]) == text,
    )
}

/// The kind of completion and the word to complete for the line `input`.
/// With no word, or inside the first word, a command is completed. After
/// that a path is completed, for `cd` a directory. The word is empty where
/// the line ends in a space.
pub open spec fn spec_request(input: Seq<char>) -> (CompletionKind, Seq<char>) {
    let words = words_of(input);
    let open = input.len() > 0 && input.last() == ' ';
    let token = if open || words.len() == 0 {
        Seq::empty()
    } else {
        words.last()
    };
    let kind = if words.len() == 0 || (words.len() == 1 && !open) {
        CompletionKind::Command
    } else if words[0] == "cd"@ {
        CompletionKind::Path(PathFilter::DirectoriesOnly)
    } else {
        CompletionKind::Path(PathFilter::All)
    };
    (kind, token)
}

/// The index just behind the last white-space character of `s`: where the
/// last word begins. It is 0 if `s` holds no white space.
pub open spec fn last_word_start(s: Seq<char>) -> int
    decreases s.len(),
{
    if s.len() == 0 {
        0
    } else if is_whitespace(s.last()) {
        s.len() as int
    } else {
        last_word_start(s.drop_last())
    }
}

/// The line `input` with its last word replaced by `suggestion`, and a space
/// behind it unless the suggestion ends in `/`.
pub open spec fn completed_input(input: Seq<char>, suggestion: Seq<char>) -> Seq<char> {
    let head = input.take(last_word_start(input)) + suggestion;
    if suggestion.len() > 0 && suggestion.last() == '/' {
        head
    } else {
        head.push(' ')
    }
}

/// What `generate_suggestions` lists for the line `input` and what was read.
pub open spec fn wanted_names(input: Seq<char>, listing: Listing) -> Set<Seq<char>> {
    match spec_request(input).0 {
        CompletionKind::Command => executable_names(spec_request(input).1, listing.entries@),
        CompletionKind::Path(filter) => path_names(
            listing.partial_name@,
            listing.base@,
            listing.entries@,
            filter,
        ),
    }
}

impl CompletionState {
    /// A closed menu without suggestions.
    pub fn new() -> (state: Self)
        ensures
            state@ == CompletionView::closed(),
    {
        let state = CompletionState { active: false, suggestions: Vec::new(), selected_index: 0 };
        assert(state@.suggestions =~= Seq::empty());
        state
    }

    /// What the line `input_buffer` asks to complete.
    pub fn request(input_buffer: &str) -> (req: CompletionRequest)
        ensures
            (req.kind, req.token@) == spec_request(input_buffer@),
    {
        let chars = chars_of(input_buffer);
        let words = split_words(chars.as_slice());
        let open = chars.len() > 0 && chars[chars.len() - 1] == ' ';
        let token = if open || words.len() == 0 {
            String::new()
        } else {
            string_of(words[words.len() - 1].as_slice())
        };
        let kind = if words.len() == 0 || (words.len() == 1 && !open) {
            CompletionKind::Command
        } else {
            let cd = chars_of("cd");
            if same_chars(words[0].as_slice(), cd.as_slice()) {
                CompletionKind::Path(PathFilter::DirectoriesOnly)
            } else {
                CompletionKind::Path(PathFilter::All)
            }
        };
        CompletionRequest { kind, token }
    }

    /// The command names that start with `partial_cmd`: the built-in ones and
    /// the executable files among `entries`, each once, in ascending order.
    pub fn suggest_executables(partial_cmd: &str, entries: &[DirEntryInfo]) -> (out: Vec<String>)
        ensures
            sorted_listing_of(string_views(out@), executable_names(partial_cmd@, entries@)),
    {
        let partial = chars_of(partial_cmd);
        let mut list: Vec<Vec<char>> = Vec::new();
        let cd = chars_of("cd");
        let pwd = chars_of("pwd");
        let exit = chars_of("exit");
        if starts_with(cd.as_slice(), partial.as_slice()) {
            insert_sorted(&mut list, cd);
        }
        if starts_with(pwd.as_slice(), partial.as_slice()) {
            insert_sorted(&mut list, pwd);
        }
        if starts_with(exit.as_slice(), partial.as_slice()) {
            insert_sorted(&mut list, exit);
        }
        let mut i: usize = 0;
        while i < entries.len()
            invariant
                i <= entries.len(),
                partial@ == partial_cmd@,
                strictly_sorted(char_views(list@)),
                forall|n: Seq<char>|
                    char_views(list@).contains(n) <==> ((builtin_names().contains(n) && has_prefix(
                        n,
                        partial@,
                    )) || exists|k: int|
                        0 <= k < i && is_executable_match(#[trigger] entries@[k], partial@)
                            && entries@[k].name@ == n),
            decreases entries.len() - i,
        {
            let entry = &entries[i];
            if entry.is_file && entry.mode & 0o111 != 0 {
                let name = chars_of(entry.name.as_str());
                if starts_with(name.as_slice(), partial.as_slice()) {
                    insert_sorted(&mut list, name);
                }
            }
            i += 1;
        }
        strings_of(&list)
    }

    /// The paths to suggest for the entries of the directory that was read:
    /// one for each entry that passes `filter` and whose name starts with
    /// `partial_name`, spelled behind `base`, each once, in ascending order.
    pub fn suggest_paths(
        partial_name: &str,
        base: &str,
        entries: &[DirEntryInfo],
        filter: PathFilter,
    ) -> (out: Vec<String>)
        ensures
            sorted_listing_of(
                string_views(out@),
                path_names(partial_name@, base@, entries@, filter),
            ),
    {
        let partial = chars_of(partial_name);
        let base_chars = chars_of(base);
        let mut list: Vec<Vec<char>> = Vec::new();
        let mut i: usize = 0;
        while i < entries.len()
            invariant
                i <= entries.len(),
                partial@ == partial_name@,
                base_chars@ == base@,
                strictly_sorted(char_views(list@)),
                forall|n: Seq<char>|
                    char_views(list@).contains(n) <==> exists|k: int|
                        0 <= k < i && is_path_match(#[trigger] entries@[k], partial@, filter)
                            && path_suggestion(base@, entries@[k]) == n,
            decreases entries.len() - i,
        {
            let entry = &entries[i];
            let name = chars_of(entry.name.as_str());
            let passes = match filter {
                PathFilter::All => true,
                PathFilter::DirectoriesOnly => entry.is_dir,
            };
            if passes && starts_with(name.as_slice(), partial.as_slice()) {
                let mut text = join_name(base_chars.as_slice(), name.as_slice());
                if entry.is_dir {
                    text.push('/');
                }
                insert_sorted(&mut list, text);
            }
            i += 1;
        }
        strings_of(&list)
    }

    /// The suggestions for the line `input_buffer`, from what was read for
    /// it: command names inside the first word, paths after it.
    pub fn generate_suggestions(&self, input_buffer: &str, listing: &Listing) -> (out: Vec<String>)
        ensures
            sorted_listing_of(string_views(out@), wanted_names(input_buffer@, *listing)),
    {
        let req = Self::request(input_buffer);
        match req.kind {
            CompletionKind::Command => Self::suggest_executables(
                req.token.as_str(),
                listing.entries.as_slice(),
            ),
            CompletionKind::Path(filter) => Self::suggest_paths(
                listing.partial_name.as_str(),
                listing.base.as_str(),
                listing.entries.as_slice(),
                filter,
            ),
        }
    }

    /// Opens the menu on the suggestions for the line `input_buffer`, with
    /// the first one selected. With no suggestion the menu stays closed.
    pub fn start_completion(&mut self, input_buffer: &str, listing: &Listing)
        ensures
            sorted_listing_of(
                string_views(final(self).suggestions@),
                wanted_names(input_buffer@, *listing),
            ),
            final(self).selected_index == 0,
            final(self).active == (final(self).suggestions.len() > 0),
    {
        self.active = true;
        self.selected_index = 0;
        self.suggestions = self.generate_suggestions(input_buffer, listing);
        if self.suggestions.len() == 0 {
            self.active = false;
        }
    }

    /// Closes the menu and forgets the suggestions. The index stays.
    pub fn stop_completion(&mut self)
        ensures
            final(self)@ == old(self)@.stop(),
    {
        self.active = false;
        self.suggestions.clear();
        assert(string_views(self.suggestions@) =~= Seq::empty());
    }

    /// Selects the suggestion after the selected one, the first after the
    /// last. Without suggestions nothing changes.
    pub fn next_suggestion(&mut self)
        ensures
            final(self)@ == old(self)@.next(),
            final(self).suggestions == old(self).suggestions,
    {
        let n = self.suggestions.len();
        if n > 0 {
            self.selected_index = ring_next(self.selected_index, n);
        }
    }

    /// Selects the suggestion before the selected one, the last before the
    /// first. Without suggestions nothing changes.
    pub fn previous_suggestion(&mut self)
        ensures
            final(self)@ == old(self)@.previous(),
            final(self).suggestions == old(self).suggestions,
    {
        let n = self.suggestions.len();
        if n > 0 {
            self.selected_index = ring_previous(self.selected_index, n);
        }
    }

    /// The input line with its last word replaced by the selected
    /// suggestion, and the place of the cursor behind it, counted in
    /// characters. There is no result when the index selects no suggestion.
    pub fn apply_completion(&self, current_input: &str) -> (r: Option<(String, usize)>)
        ensures
            match r {
                Some((text, cursor)) => self@.apply(current_input@) == Some((text@, cursor)),
                None => self@.apply(current_input@) is None,
            },
    {
        if self.selected_index >= self.suggestions.len() {
            return None;
        }
        let suggestion = chars_of(self.suggestions[self.selected_index].as_str());
        let chars = chars_of(current_input);
        let mut start: usize = chars.len();
        proof {
            assert(chars@.take(chars.len() as int) =~= chars@);
        }
        while start > 0 && !char_is_whitespace(chars[start - 1])
            invariant
                start <= chars.len(),
                last_word_start(chars@) == last_word_start(chars@.take(start as int)),
            decreases start,
        {
            proof {
                assert(chars@.take(start as int).drop_last() =~= chars@.take(start - 1));
            }
            start -= 1;
        }
        let mut out: Vec<char> = Vec::new();
        let mut i: usize = 0;
        while i < start
            invariant
                i <= start <= chars.len(),
                out@ == chars@.take(i as int),
            decreases start - i,
        {
            out.push(chars[i]);
            i += 1;
        }
        let ghost head = out@;
        let mut k: usize = 0;
        while k < suggestion.len()
            invariant
                k <= suggestion.len(),
                out@ == head + suggestion@.take(k as int),
            decreases suggestion.len() - k,
        {
            out.push(suggestion[k]);
            k += 1;
        }
        if suggestion.len() == 0 || suggestion[suggestion.len() - 1] != '/' {
            out.push(' ');
        }
        proof {
            assert(out@ =~= completed_input(chars@, suggestion@));
        }
        let text = string_of(out.as_slice());
        let cursor = byte_count(text.as_str());
        Some((text, cursor))
    }
}

impl Default for CompletionState {
    fn default() -> (state: Self)
        ensures
            state@ == CompletionView::closed(),
    {
        CompletionState::new()
    }
}

} // verus!
