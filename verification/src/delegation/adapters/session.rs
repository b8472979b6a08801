//! Sessions as files, one for each.

use crate::delegation::application::{is_base32_digit, is_ulid_text, Session, SessionId};
use crate::delegation::desk::Call;
use crate::delegation::history::last_saved;
use crate::paths::{
    has_extension, is_hidden, join, joined, lemma_encode_concat, lemma_encode_end,
    lemma_encode_separators, path_bytes, replaced_extension, with_dot, with_extension, DOT,
    SEPARATOR,
};
use std::path::PathBuf;
use vstd::prelude::*;
use vstd::utf8::{encode_utf8, encode_utf8_decode_utf8, is_ascii_chars_encode_utf8};

verus! {

/// A directory with a file for each session.
#[derive(Debug)]
pub struct SessionFiles {
    pub root: PathBuf,
}

/// The file of a session.
pub open spec fn session_path(root: Seq<u8>, id: Seq<char>) -> Seq<u8> {
    joined(root, encode_utf8(id + ".json"@))
}

/// Whether the last component of a text is a single dot.
pub open spec fn ends_in_a_lone_dot(text: Seq<char>) -> bool {
    &&& text.len() > 0
    &&& text.last() == '.'
    &&& text.len() > 1 ==> text[text.len() - 2] == '/'
}

/// The file in which a session is written before it gets its place. Where the last
/// component of the name is empty, the session's own file is called `.json`, which
/// counts as a name without an extension.
pub open spec fn temporary_path(root: Seq<u8>, id: Seq<char>) -> Seq<u8> {
    if id.len() == 0 || id.last() == '/' {
        session_path(root, id) + encode_utf8(".json.tmp"@)
    } else {
        session_path(root, id) + encode_utf8(".tmp"@)
    }
}

/// The files that are written when a session is saved: first the temporary one,
/// which is then given the name of the other.
#[derive(Debug)]
pub struct SavePlan {
    pub temporary: PathBuf,
    pub destination: PathBuf,
}

impl SessionFiles {
    /// The session files in that directory.
    pub fn new(root: PathBuf) -> (files: SessionFiles)
        ensures
            files.root == root,
    {
        SessionFiles { root }
    }

    /// The file of a session.
    pub fn path(&self, id: &SessionId) -> (path: PathBuf)
        ensures
            path_bytes(path) == session_path(path_bytes(self.root), id.0@),
    {
        let mut name: String = id.as_str().to_owned();
        name.append(".json");
        join(&self.root, name.as_str())
    }

    /// Which files to write to save a session.
    pub fn save(&self, session: &Session) -> (plan: SavePlan)
        ensures
            path_bytes(plan.destination) == session_path(
                path_bytes(self.root),
                session.session_id.0@,
            ),
            path_bytes(plan.temporary) == replaced_extension(
                path_bytes(plan.destination),
                "json.tmp"@,
            ),
            !ends_in_a_lone_dot(session.session_id.0@) ==> path_bytes(plan.temporary)
                == temporary_path(path_bytes(self.root), session.session_id.0@),
    {
        proof {
            reveal_strlit("json.tmp");
        }
        let destination: PathBuf = self.path(&session.session_id);
        let temporary: PathBuf = with_extension(&destination, "json.tmp");
        proof {
            let id = session.session_id.0@;
            if id.len() == 0 || id.last() == '/' {
                lemma_hidden(path_bytes(self.root), id);
            } else if !ends_in_a_lone_dot(id) {
                lemma_temporary(path_bytes(self.root), id);
            }
        }
        SavePlan { temporary, destination }
    }

    /// Which file to read to load a session.
    pub fn load(&self, id: &SessionId) -> (path: PathBuf)
        ensures
            path_bytes(path) == session_path(path_bytes(self.root), id.0@),
    {
        self.path(id)
    }
}

/// The bytes of the extensions of session files.
proof fn lemma_extensions()
    ensures
        encode_utf8(".json"@) == seq![DOT, 0x6au8, 0x73, 0x6f, 0x6e],
        encode_utf8("json"@) == seq![0x6au8, 0x73, 0x6f, 0x6e],
        encode_utf8("json.tmp"@) == seq![0x6au8, 0x73, 0x6f, 0x6e, DOT, 0x74, 0x6d, 0x70],
        encode_utf8(".tmp"@) == seq![DOT, 0x74u8, 0x6d, 0x70],
        encode_utf8(".json.tmp"@) == seq![DOT, 0x6au8, 0x73, 0x6f, 0x6e, DOT, 0x74, 0x6d, 0x70],
{
    reveal_strlit(".json");
    reveal_strlit("json");
    reveal_strlit("json.tmp");
    reveal_strlit(".tmp");
    reveal_strlit(".json.tmp");
    is_ascii_chars_encode_utf8(".json"@);
    is_ascii_chars_encode_utf8("json"@);
    is_ascii_chars_encode_utf8("json.tmp"@);
    is_ascii_chars_encode_utf8(".tmp"@);
    is_ascii_chars_encode_utf8(".json.tmp"@);
    assert(encode_utf8(".json"@) =~= seq![DOT, 0x6au8, 0x73, 0x6f, 0x6e]);
    assert(encode_utf8("json"@) =~= seq![0x6au8, 0x73, 0x6f, 0x6e]);
    assert(encode_utf8("json.tmp"@) =~= seq![0x6au8, 0x73, 0x6f, 0x6e, DOT, 0x74, 0x6d, 0x70]);
    assert(encode_utf8(".tmp"@) =~= seq![DOT, 0x74u8, 0x6d, 0x70]);
    assert(encode_utf8(".json.tmp"@) =~= seq![
        DOT,
        0x6au8,
        0x73,
        0x6f,
        0x6e,
        DOT,
        0x74,
        0x6d,
        0x70,
    ]);
}

/// What stands before the extension of a session's file.
spec fn session_stem(root: Seq<u8>, id: Seq<char>) -> Seq<u8> {
    joined(root, encode_utf8(id))
}

/// A text ends in a dot exactly if its bytes do, and then what stands before the
/// dot is a separator exactly if it is among the bytes.
proof fn lemma_last_dot(text: Seq<char>)
    requires
        text.len() > 0,
        !ends_in_a_lone_dot(text),
    ensures
        encode_utf8(text).last() == DOT ==> {
            &&& encode_utf8(text).len() > 1
            &&& encode_utf8(text)[encode_utf8(text).len() - 2] != SEPARATOR
        },
{
    let before = text.drop_last();
    let end = seq![text.last()];
    assert(text =~= before + end);
    lemma_encode_concat(before, end);
    lemma_encode_end(text.last());
    lemma_encode_separators(before);
    if encode_utf8(text).last() == DOT {
        assert(encode_utf8(end).last() == DOT);
        assert(encode_utf8(text)[encode_utf8(text).len() - 2] == encode_utf8(before).last());
        assert(before.last() == text[text.len() - 2]);
    }
}

/// A session whose name ends in an empty component has a file that is called
/// `.json`.
proof fn lemma_hidden(root: Seq<u8>, id: Seq<char>)
    requires
        id.len() == 0 || id.last() == '/',
    ensures
        exists|directory: Seq<u8>| #[trigger]
            is_hidden(session_path(root, id), directory, encode_utf8("json"@)),
        with_dot(session_path(root, id), encode_utf8("json.tmp"@)) == temporary_path(root, id),
{
    lemma_extensions();
    lemma_encode_concat(id, ".json"@);
    lemma_encode_separators(id);
    let path = session_path(root, id);
    let directory = if id.len() == 0 {
        if root.len() == 0 || root.last() == SEPARATOR {
            root
        } else {
            root.push(SEPARATOR)
        }
    } else {
        session_stem(root, id)
    };
    if id.len() == 0 {
        assert(id + ".json"@ =~= ".json"@);
    } else {
        assert(path =~= directory + encode_utf8(".json"@));
        assert(directory.last() == encode_utf8(id).last());
    }
    assert(path =~= with_dot(directory, encode_utf8("json"@)));
    assert(is_hidden(path, directory, encode_utf8("json"@)));
    assert(with_dot(path, encode_utf8("json.tmp"@)) =~= path + encode_utf8(".json.tmp"@));
}

proof fn lemma_temporary(root: Seq<u8>, id: Seq<char>)
    requires
        id.len() > 0,
        id.last() != '/',
        !ends_in_a_lone_dot(id),
    ensures
        has_extension(session_path(root, id), session_stem(root, id), encode_utf8("json"@)),
        with_dot(session_stem(root, id), encode_utf8("json.tmp"@)) == temporary_path(root, id),
{
    lemma_extensions();
    lemma_encode_concat(id, ".json"@);
    lemma_encode_separators(id);
    let stem = session_stem(root, id);
    assert(session_path(root, id) =~= stem + encode_utf8(".json"@));
    assert(session_path(root, id) =~= with_dot(stem, encode_utf8("json"@)));
    assert(stem.last() == encode_utf8(id).last());
    lemma_last_dot(id);
    assert(with_dot(stem, encode_utf8("json.tmp"@)) =~= session_path(root, id) + encode_utf8(
        ".tmp"@,
    ));
}

/// Two sessions have two paths: what is saved of the one is not what is loaded of
/// the other.
pub proof fn sessions_have_files_of_their_own(root: Seq<u8>, one: Seq<char>, other: Seq<char>)
    requires
        one != other,
        one.len() > 0 ==> one[0] != '/',
        other.len() > 0 ==> other[0] != '/',
    ensures
        session_path(root, one) != session_path(root, other),
{
    reveal_strlit(".json");
    let one_name = one + ".json"@;
    let other_name = other + ".json"@;
    lemma_encode_separators(one_name);
    lemma_encode_separators(other_name);
    if session_path(root, one) == session_path(root, other) {
        let path = session_path(root, one);
        let start = if root.len() == 0 || root.last() == SEPARATOR {
            root.len() as int
        } else {
            root.len() as int + 1
        };
        assert(path.skip(start) =~= encode_utf8(one_name));
        assert(path.skip(start) =~= encode_utf8(other_name));
        encode_utf8_decode_utf8(one_name);
        encode_utf8_decode_utf8(other_name);
        assert(one =~= one_name.take(one_name.len() - 5));
        assert(other =~= other_name.take(other_name.len() - 5));
    }
}

/// The temporary file of a session is no session's file, so that a session that
/// is only half written is never loaded.
pub proof fn temporary_files_are_no_session_files(
    root: Seq<u8>,
    id: Seq<char>,
    other_root: Seq<u8>,
    other: Seq<char>,
)
    ensures
        temporary_path(root, id) != session_path(other_root, other),
{
    lemma_extensions();
    lemma_encode_concat(other, ".json"@);
    let temporary = temporary_path(root, id);
    let path = session_path(other_root, other);
    assert(temporary.last() == 0x70);
    assert(path.last() == 0x6e);
}

/// The file of a session with a generated name lies in the directory itself: its
/// name holds no separator.
pub proof fn generated_sessions_lie_in_the_directory(root: Seq<u8>, id: Seq<char>)
    requires
        is_ulid_text(id),
    ensures
        session_path(root, id) == (if root.len() == 0 || root.last() == SEPARATOR {
            root
        } else {
            root.push(SEPARATOR)
        }) + encode_utf8(id + ".json"@),
        !encode_utf8(id + ".json"@).contains(SEPARATOR),
        temporary_path(root, id) == session_path(root, id) + encode_utf8(".tmp"@),
        !ends_in_a_lone_dot(id),
{
    reveal_strlit(".json");
    let name = id + ".json"@;
    assert forall|i: int| 0 <= i < id.len() implies id[i] != '/' by {
        assert(is_base32_digit(id[i]));
    }
    assert(!name.contains('/')) by {
        if name.contains('/') {
            let i = choose|i: int| 0 <= i < name.len() && name[i] == '/';
            if i < id.len() {
                assert(name[i] == id[i]);
            } else {
                assert(name[i] == ".json"@[i - id.len()]);
            }
        }
    }
    lemma_encode_separators(name);
    assert(name[0] == id[0]);
}

/// An attempt to save a session.
pub enum Attempt {
    /// It came to its end: the contents were written to the temporary file, and this
    /// was renamed.
    Finished { session: Session, contents: Seq<u8> },
    /// It got no further than the temporary file, in which that much was written.
    BrokenOff { session: Session, written: Seq<u8> },
}

impl Attempt {
    /// The session that was to be saved.
    pub open spec fn session(self) -> Session {
        match self {
            Attempt::Finished { session, .. } => session,
            Attempt::BrokenOff { session, .. } => session,
        }
    }

    /// The name of the session that was to be saved.
    pub open spec fn id(self) -> Seq<char> {
        self.session().session_id.0@
    }
}

/// The files of a disk, by their paths, after one more attempt to save a session in
/// that directory.
pub open spec fn disk_after(
    disk: Map<Seq<u8>, Seq<u8>>,
    root: Seq<u8>,
    attempt: Attempt,
) -> Map<Seq<u8>, Seq<u8>> {
    let temporary = temporary_path(root, attempt.id());
    match attempt {
        Attempt::Finished { contents, .. } => {
            let written = disk.insert(temporary, contents);
            written.remove(temporary).insert(
                session_path(root, attempt.id()),
                written[temporary],
            )
        },
        Attempt::BrokenOff { written, .. } => disk.insert(temporary, written),
    }
}

/// The files of a disk after any number of attempts, one after the other.
pub open spec fn disk_after_all(
    disk: Map<Seq<u8>, Seq<u8>>,
    root: Seq<u8>,
    attempts: Seq<Attempt>,
) -> Map<Seq<u8>, Seq<u8>>
    decreases attempts.len(),
{
    if attempts.len() == 0 {
        disk
    } else {
        disk_after(disk_after_all(disk, root, attempts.drop_last()), root, attempts.last())
    }
}

/// The last attempt to save the session of that name that came to its end.
pub open spec fn last_finished(attempts: Seq<Attempt>, id: Seq<char>) -> Option<Attempt>
    decreases attempts.len(),
{
    if attempts.len() == 0 {
        None
    } else if attempts.last() is Finished && attempts.last().id() == id {
        Some(attempts.last())
    } else {
        last_finished(attempts.drop_last(), id)
    }
}

/// What is found in the file of the session of that name, if there is such a file.
pub open spec fn stored(
    disk: Map<Seq<u8>, Seq<u8>>,
    root: Seq<u8>,
    id: Seq<char>,
) -> Option<Seq<u8>> {
    if disk.dom().contains(session_path(root, id)) {
        Some(disk[session_path(root, id)])
    } else {
        None
    }
}

/// Whether the name of a session names one file in the directory itself.
pub open spec fn is_plain(id: Seq<char>) -> bool {
    !id.contains('/')
}

/// Whether every attempt was made under a plain name, and one of which it is known
/// what its temporary file is called: any but a single dot.
pub open spec fn are_plain(attempts: Seq<Attempt>) -> bool {
    forall|i: int|
        0 <= i < attempts.len() ==> is_plain((#[trigger] attempts[i]).id())
            && !ends_in_a_lone_dot(attempts[i].id())
}

/// What is found of a session is what was saved of it last, however many sessions
/// were saved before, in between and after, and however many attempts were broken
/// off. Of a session that was never saved, nothing has changed: where there was no
/// file, there is none.
pub proof fn sessions_are_loaded_as_they_were_saved(
    disk: Map<Seq<u8>, Seq<u8>>,
    root: Seq<u8>,
    attempts: Seq<Attempt>,
    id: Seq<char>,
)
    requires
        is_plain(id),
        are_plain(attempts),
    ensures
        stored(disk_after_all(disk, root, attempts), root, id) == (match last_finished(
            attempts,
            id,
        ) {
            Some(attempt) => Some(attempt->contents),
            None => stored(disk, root, id),
        }),
    decreases attempts.len(),
{
    if attempts.len() > 0 {
        let earlier = attempts.drop_last();
        let attempt = attempts.last();
        assert(attempts[attempts.len() - 1] == attempt);
        assert(are_plain(earlier)) by {
            assert forall|i: int| 0 <= i < earlier.len() implies is_plain(
                (#[trigger] earlier[i]).id(),
            ) && !ends_in_a_lone_dot(earlier[i].id()) by {
                assert(attempts[i] == earlier[i]);
            }
        }
        sessions_are_loaded_as_they_were_saved(disk, root, earlier, id);
        temporary_files_are_no_session_files(root, attempt.id(), root, id);
        if attempt.id() != id {
            assert(attempt.id().len() > 0 ==> attempt.id().contains(attempt.id()[0]));
            assert(id.len() > 0 ==> id.contains(id[0]));
            sessions_have_files_of_their_own(root, attempt.id(), id);
        }
    }
}

/// Where what is written of a session reads as that session, a session is read as it
/// was saved last; and in a directory that was empty, one that was never saved is
/// not found.
pub proof fn sessions_are_read_as_they_were_saved(
    root: Seq<u8>,
    attempts: Seq<Attempt>,
    id: Seq<char>,
    read: spec_fn(Seq<u8>) -> Option<Session>,
)
    requires
        is_plain(id),
        are_plain(attempts),
        forall|i: int|
            0 <= i < attempts.len() && (#[trigger] attempts[i]) is Finished ==> read(
                attempts[i]->contents,
            ) == Some(attempts[i].session()),
    ensures
        match last_finished(attempts, id) {
            Some(attempt) => {
                let found = stored(disk_after_all(Map::empty(), root, attempts), root, id);
                &&& found is Some
                &&& read(found->Some_0) == Some(attempt.session())
            },
            None => stored(disk_after_all(Map::empty(), root, attempts), root, id) is None,
        },
{
    sessions_are_loaded_as_they_were_saved(Map::empty(), root, attempts, id);
    lemma_last_finished(attempts, id);
}

proof fn lemma_last_finished(attempts: Seq<Attempt>, id: Seq<char>)
    ensures
        last_finished(attempts, id) is Some ==> exists|i: int|
            0 <= i < attempts.len() && #[trigger] attempts[i] == last_finished(
                attempts,
                id,
            )->Some_0 && attempts[i] is Finished && attempts[i].id() == id,
    decreases attempts.len(),
{
    if attempts.len() > 0 {
        if attempts.last() is Finished && attempts.last().id() == id {
            assert(attempts[attempts.len() - 1] == attempts.last());
        } else {
            lemma_last_finished(attempts.drop_last(), id);
            if last_finished(attempts, id) is Some {
                let i = choose|i: int|
                    0 <= i < attempts.len() - 1 && #[trigger] attempts.drop_last()[i]
                        == last_finished(attempts, id)->Some_0;
                assert(attempts[i] == attempts.drop_last()[i]);
            }
        }
    }
}

/// Whether the attempts are those that the store made when it was asked to keep
/// sessions: each session it agreed to keep was saved to the end; where it did not
/// agree, it broke off, or had not begun.
pub open spec fn carried_out<T>(calls: Seq<Call<T>>, attempts: Seq<Attempt>) -> bool
    decreases calls.len(),
{
    if calls.len() == 0 {
        attempts.len() == 0
    } else {
        let call = calls.last();
        ||| {
            &&& call is Save
            &&& attempts.len() > 0
            &&& attempts.last().session() == call->session
            &&& attempts.last() is Finished <==> call->kept is Ok
            &&& carried_out(calls.drop_last(), attempts.drop_last())
        }
        ||| {
            &&& !(call is Save && call->kept is Ok)
            &&& carried_out(calls.drop_last(), attempts)
        }
    }
}

/// A store that saves sessions in such files gives back what it has agreed to keep
/// last, and nothing where it has kept nothing.
pub proof fn session_files_give_back_what_was_kept_last<T>(
    root: Seq<u8>,
    calls: Seq<Call<T>>,
    attempts: Seq<Attempt>,
    id: Seq<char>,
    read: spec_fn(Seq<u8>) -> Option<Session>,
)
    requires
        carried_out(calls, attempts),
        is_plain(id),
        are_plain(attempts),
        forall|i: int|
            0 <= i < attempts.len() && (#[trigger] attempts[i]) is Finished ==> read(
                attempts[i]->contents,
            ) == Some(attempts[i].session()),
    ensures
        match last_saved(calls, id) {
            Some(session) => {
                let found = stored(disk_after_all(Map::empty(), root, attempts), root, id);
                &&& found is Some
                &&& read(found->Some_0) == Some(session)
            },
            None => stored(disk_after_all(Map::empty(), root, attempts), root, id) is None,
        },
{
    sessions_are_read_as_they_were_saved(root, attempts, id, read);
    lemma_kept_last(calls, attempts, id);
}

proof fn lemma_kept_last<T>(calls: Seq<Call<T>>, attempts: Seq<Attempt>, id: Seq<char>)
    requires
        carried_out(calls, attempts),
    ensures
        last_saved(calls, id) == (match last_finished(attempts, id) {
            Some(attempt) => Some(attempt.session()),
            None => None,
        }),
    decreases calls.len(),
{
    if calls.len() > 0 {
        let call = calls.last();
        if !(call is Save && call->kept is Ok) && carried_out(calls.drop_last(), attempts) {
            lemma_kept_last(calls.drop_last(), attempts, id);
        } else {
            lemma_kept_last(calls.drop_last(), attempts.drop_last(), id);
        }
    }
}

/// An attempt that came to its end leaves no temporary file behind.
pub proof fn finished_saves_leave_no_temporary_file(
    disk: Map<Seq<u8>, Seq<u8>>,
    root: Seq<u8>,
    attempt: Attempt,
)
    requires
        attempt is Finished,
        !ends_in_a_lone_dot(attempt.id()),
    ensures
        !disk_after(disk, root, attempt).dom().contains(temporary_path(root, attempt.id())),
{
    temporary_files_are_no_session_files(root, attempt.id(), root, attempt.id());
}

/// An attempt that was broken off, whatever it has written, leaves the file of every
/// session as it was, that of the session which was to be saved among them.
pub proof fn failed_saves_leave_every_session_as_it_was(
    disk: Map<Seq<u8>, Seq<u8>>,
    root: Seq<u8>,
    attempt: Attempt,
    id: Seq<char>,
)
    requires
        attempt is BrokenOff,
        !ends_in_a_lone_dot(attempt.id()),
    ensures
        stored(disk_after(disk, root, attempt), root, id) == stored(disk, root, id),
{
    temporary_files_are_no_session_files(root, attempt.id(), root, id);
}

/// A session is loaded from where it was saved to: its name with `.json` behind it, in the
/// directory that the files were made for, unless the name leads elsewhere by itself.
/// Before that it is written to another file, called as that one is with `.tmp` behind it,
/// or with `.json.tmp` where nothing stands before `.json`.
pub proof fn sessions_are_loaded_from_where_they_are_saved_to(
    root: PathBuf,
    files: SessionFiles,
    session: Session,
    plan: SavePlan,
    path: PathBuf,
    source: PathBuf,
)
    requires
        call_ensures(SessionFiles::new, (root,), files),
        call_ensures(SessionFiles::save, (&files, &session), plan),
        call_ensures(SessionFiles::path, (&files, &session.session_id), path),
        call_ensures(SessionFiles::load, (&files, &session.session_id), source),
    ensures
        path_bytes(source) == path_bytes(plan.destination),
        path_bytes(path) == path_bytes(plan.destination),
        ({
            let id = session.session_id.0@;
            let name = encode_utf8(id + ".json"@);
            let bytes = path_bytes(root);
            let destination = path_bytes(plan.destination);
            &&& id.len() > 0 && id[0] == '/' ==> destination == name
            &&& !(id.len() > 0 && id[0] == '/') ==> destination == (if bytes.len() == 0
                || bytes.last() == 0x2f {
                bytes + name
            } else {
                bytes + seq![0x2fu8] + name
            })
        }),
        ({
            let id = session.session_id.0@;
            let destination = path_bytes(plan.destination);
            let temporary = path_bytes(plan.temporary);
            let n = id.len();
            &&& n == 0 || id[n - 1] == '/' ==> temporary == destination + encode_utf8(
                ".json.tmp"@,
            )
            &&& n > 0 && id[n - 1] != '/' && id[n - 1] != '.' ==> temporary == destination
                + encode_utf8(".tmp"@)
            &&& n > 1 && id[n - 1] == '.' && id[n - 2] != '/' ==> temporary == destination
                + encode_utf8(".tmp"@)
        }),
{
    reveal_strlit(".json");
    let id = session.session_id.0@;
    let text = id + ".json"@;
    if id.len() > 0 {
        assert(text[0] == id[0]);
    } else {
        assert(text[0] == '.');
    }
    lemma_encode_separators(text);
    let bytes = path_bytes(root);
    assert(bytes.push(SEPARATOR) =~= bytes + seq![0x2fu8]);
}

} // verus!
