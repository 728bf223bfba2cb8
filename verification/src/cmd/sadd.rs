//! `SADD key member [member ...]`: adds members to the set under a key and
//! answers with the number of members that were not there before.

use crate::backend::{members_at, Backend, StoreView};
use crate::cmd::{
    extract_args, is_named, string_from_utf8, validate_command, validation_failure, ArgsCheckRule,
    CommandError, CommandErrorView, CommandExecutor,
};
use crate::resp::{lemma_array_view, FrameView, RespArray, RespFrame};
use vstd::prelude::*;
use vstd::utf8::{decode_utf8, valid_utf8};

verus! {

/// The `SADD` command, ready to run.
#[derive(Debug)]
pub struct SAdd {
    pub key: String,
    pub members: RespArray,
}

/// The mathematical value of an [`SAdd`].
pub struct SAddView {
    pub key: Seq<char>,
    pub members: Seq<FrameView>,
}

impl View for SAdd {
    type V = SAddView;

    open spec fn view(&self) -> SAddView {
        SAddView { key: self.key@, members: self.members@ }
    }
}

/// The names that the command answers to.
pub open spec fn sadd_names() -> Seq<&'static str> {
    seq!["sadd"]
}

/// The message of the error for a key that is no present bulk string.
pub open spec fn bad_key_message() -> Seq<char> {
    "Invalid sadd"@
}

/// The message of the error for a key whose bytes are no text: it names the
/// command and the failure to decode.
pub open spec fn bad_text_message() -> Seq<char> {
    "Invalid sadd: key is not valid UTF-8"@
}

/// The error with which a request is refused as an `SADD`, if it is refused.
/// It needs the name, a key and at least one member; the key must be a
/// present bulk string and valid UTF-8. The checks come in this order. A key
/// that fails either way is an invalid argument; the message tells the two
/// apart.
pub open spec fn sadd_failure(frames: Seq<FrameView>) -> Option<CommandErrorView> {
    match validation_failure(frames, sadd_names(), 2, ArgsCheckRule::EqualOrGreater) {
        Some(e) => Some(e),
        None => match frames[1] {
            FrameView::BulkString(Some(bytes)) => if valid_utf8(bytes) {
                None
            } else {
                Some(CommandErrorView::InvalidArgument(bad_text_message()))
            },
            _ => Some(CommandErrorView::InvalidArgument(bad_key_message())),
        },
    }
}

/// The command that an accepted request stands for: the key is the text of
/// the second element, the members are all elements after it, as they are and
/// in their order.
pub open spec fn sadd_parsed(frames: Seq<FrameView>) -> SAddView {
    SAddView { key: decode_utf8(frames[1]->BulkString_0->Some_0), members: frames.skip(2) }
}

/// A request with fewer than two arguments after the name is refused by
/// validation.
pub proof fn lemma_too_few_arguments(frames: Seq<FrameView>)
    requires
        frames.len() < 3,
    ensures
        sadd_failure(frames) matches Some(e) && e.is_validation_failure(),
{
}

/// A request whose first element does not spell `sadd` exactly is refused by
/// validation.
pub proof fn lemma_other_name(frames: Seq<FrameView>)
    requires
        frames.len() == 0 || !is_named(frames[0], sadd_names()),
    ensures
        sadd_failure(frames) matches Some(e) && e.is_validation_failure(),
{
}

/// A request that passes validation with a key that is nil, or no bulk string
/// at all, is refused as an invalid argument.
pub proof fn lemma_key_shape(frames: Seq<FrameView>)
    requires
        validation_failure(frames, sadd_names(), 2, ArgsCheckRule::EqualOrGreater) is None,
        !(frames[1] matches FrameView::BulkString(Some(_))),
    ensures
        sadd_failure(frames) == Some(CommandErrorView::InvalidArgument(bad_key_message())),
{
}

/// A request that passes validation with a key that is a present bulk string
/// but not valid UTF-8 is refused as an invalid argument, whose message tells
/// of the failure to decode.
pub proof fn lemma_key_not_text(frames: Seq<FrameView>, bytes: Seq<u8>)
    requires
        validation_failure(frames, sadd_names(), 2, ArgsCheckRule::EqualOrGreater) is None,
        frames[1] == FrameView::BulkString(Some(bytes)),
        !valid_utf8(bytes),
    ensures
        sadd_failure(frames) == Some(CommandErrorView::InvalidArgument(bad_text_message())),
{
}

/// Whatever is wrong with the key of a request that passes validation, the
/// request is refused as an invalid argument.
pub proof fn lemma_key_refused(frames: Seq<FrameView>)
    requires
        validation_failure(frames, sadd_names(), 2, ArgsCheckRule::EqualOrGreater) is None,
    ensures
        sadd_failure(frames) matches Some(e) ==> e is InvalidArgument,
        sadd_failure(frames) is None <==> (frames[1] matches FrameView::BulkString(Some(bytes))
            && valid_utf8(bytes)),
{
}

impl SAdd {
    /// Builds the command from a request, or says why the request is none.
    pub fn try_from(value: RespArray) -> (r: Result<SAdd, CommandError>)
        ensures
            match r {
                Ok(cmd) => sadd_failure(value@) is None && cmd@ == sadd_parsed(value@),
                Err(e) => sadd_failure(value@) == Some(e@),
            },
    {
        let names = ["sadd"];
        assert(names@ =~= sadd_names());
        match validate_command(&value, &names, 2, ArgsCheckRule::EqualOrGreater) {
            Err(e) => {
                return Err(e);
            },
            Ok(_) => {},
        }
        let ghost frames = value@;
        let mut args = match extract_args(value, 1) {
            Ok(args) => args,
            Err(e) => {
                return Err(e);
            },
        };
        proof {
            lemma_array_view(RespArray(args));
        }
        let first = args.remove(0);
        assert(first@ == frames[1]);
        assert(RespArray(args)@ =~= frames.skip(2));
        let key = match first {
            RespFrame::BulkString(Some(key)) => match string_from_utf8(key.0) {
                Some(key) => key,
                None => {
                    return Err(
                        CommandError::InvalidArgument(
                            "Invalid sadd: key is not valid UTF-8".to_string(),
                        ),
                    );
                },
            },
            _ => {
                return Err(CommandError::InvalidArgument("Invalid sadd".to_string()));
            },
        };
        Ok(SAdd { key, members: RespArray(args) })
    }
}

/// The keyspace after `members` were added to the set under `key`. The key
/// exists afterwards, whatever `members` holds; no other key changes.
pub open spec fn sadd_store(store: StoreView, key: Seq<char>, members: Seq<FrameView>) -> StoreView {
    store.insert(key, members_at(store, key).union(members.to_set()))
}

/// How many members the set under `key` gains from `members`: the distinct
/// values among them that the set does not hold yet.
pub open spec fn sadd_count(store: StoreView, key: Seq<char>, members: Seq<FrameView>) -> nat {
    members.to_set().difference(members_at(store, key)).len()
}

/// Adding one more value to those added so far: the set gains it exactly when
/// neither the set nor the earlier values hold it.
proof fn lemma_count_step(present: Set<FrameView>, done: Seq<FrameView>, next: FrameView)
    ensures
        done.push(next).to_set() == done.to_set().insert(next),
        done.to_set().difference(present).finite(),
        done.push(next).to_set().difference(present).len() == done.to_set().difference(
            present,
        ).len() + if present.union(done.to_set()).contains(next) {
            0int
        } else {
            1int
        },
{
    broadcast use vstd::seq_lib::seq_to_set_is_finite;

    done.lemma_push_to_set_commute(next);
    let before = done.to_set().difference(present);
    let after = done.push(next).to_set().difference(present);
    vstd::set_lib::lemma_len_difference(done.to_set(), present);
    if present.union(done.to_set()).contains(next) {
        assert(after =~= before);
    } else {
        assert(after =~= before.insert(next));
    }
}

/// The values among a prefix of `members` that are new to `present` are no
/// more than those among all of `members`.
proof fn lemma_count_prefix(present: Set<FrameView>, members: Seq<FrameView>, n: int)
    requires
        0 <= n <= members.len(),
    ensures
        members.take(n).to_set().difference(present).len() <= members.to_set().difference(
            present,
        ).len(),
{
    broadcast use vstd::seq_lib::seq_to_set_is_finite;

    let part = members.take(n).to_set().difference(present);
    let whole = members.to_set().difference(present);
    vstd::set_lib::lemma_len_difference(members.to_set(), present);
    assert forall|v: FrameView| part.contains(v) implies whole.contains(v) by {
        let i = choose|i: int| 0 <= i < members.take(n).len() && members.take(n)[i] == v;
        assert(members[i] == v);
    }
    vstd::set_lib::lemma_len_subset(part, whole);
}

impl CommandExecutor for SAdd {
    open spec fn runs_on(&self, store: StoreView) -> bool {
        sadd_count(store, self@.key, self@.members) <= i64::MAX
    }

    open spec fn reply_on(&self, store: StoreView) -> FrameView {
        FrameView::Integer(sadd_count(store, self@.key, self@.members) as i64)
    }

    open spec fn store_after(&self, store: StoreView) -> StoreView {
        sadd_store(store, self@.key, self@.members)
    }

    #[verifier::loop_isolation(false)]
    fn execute(self, backend: &mut Backend) -> (reply: RespFrame) {
        let SAdd { key, members } = self;
        let ghost present = members_at(old(backend)@, key@);
        let ghost all = members@;
        let items = members.0;
        proof {
            lemma_array_view(members);
        }
        let set = backend.entry_or_default(key);
        let mut count: i64 = 0;
        assert(all.take(0).to_set() =~= Set::<FrameView>::empty());
        assert(all.take(0).to_set().difference(present) =~= Set::<FrameView>::empty());
        assert(present.union(Set::<FrameView>::empty()) =~= present);
        for member in it: items
            invariant
                set@ == present.union(all.take(it.index() as int).to_set()),
                count == all.take(it.index() as int).to_set().difference(present).len(),
        {
            let ghost n = it.index() as int;
            proof {
                assert(member@ == all[n]);
                assert(all.take(n + 1) == all.take(n).push(all[n]));
                lemma_count_step(present, all.take(n), all[n]);
                lemma_count_prefix(present, all, n + 1);
                assert(present.union(all.take(n).to_set()).insert(all[n]) =~= present.union(
                    all.take(n + 1).to_set(),
                ));
            }
            if set.insert(member) {
                count += 1;
            }
        }
        assert(all.take(all.len() as int) == all);
        RespFrame::Integer(count)
    }
}

/// What a call counts is by how much the set under its key grows: the set
/// after the call is the set before with every member of the request, and
/// nothing else; a member that is repeated in the request, or was in the set
/// already, adds nothing.
pub proof fn lemma_count_is_growth(store: StoreView, key: Seq<char>, members: Seq<FrameView>)
    requires
        members_at(store, key).finite(),
    ensures
        members_at(sadd_store(store, key, members), key) == members_at(store, key).union(
            members.to_set(),
        ),
        members_at(sadd_store(store, key, members), key).finite(),
        sadd_count(store, key, members) == members_at(sadd_store(store, key, members), key).len()
            - members_at(store, key).len(),
{
    broadcast use vstd::seq_lib::seq_to_set_is_finite;

    let before = members_at(store, key);
    let given = members.to_set();
    let gained = given.difference(before);
    vstd::set_lib::lemma_len_difference(given, before);
    assert(before.union(given) =~= before.union(gained));
    assert(before.disjoint(gained));
    vstd::set_lib::lemma_set_disjoint_lens(before, gained);
}

/// A call counts no more members than it was given.
pub proof fn lemma_sadd_count_bound(store: StoreView, key: Seq<char>, members: Seq<FrameView>)
    ensures
        sadd_count(store, key, members) <= members.len(),
{
    broadcast use vstd::seq_lib::seq_to_set_is_finite;

    vstd::set_lib::lemma_len_difference(members.to_set(), members_at(store, key));
    members.lemma_cardinality_of_set();
}

/// Adding the same members a second time adds nothing: the count is zero and
/// the keyspace stays as the first call left it.
pub proof fn lemma_sadd_again(store: StoreView, key: Seq<char>, members: Seq<FrameView>)
    ensures
        sadd_count(sadd_store(store, key, members), key, members) == 0,
        sadd_store(sadd_store(store, key, members), key, members) == sadd_store(
            store,
            key,
            members,
        ),
{
    let once = sadd_store(store, key, members);
    assert(members.to_set().difference(members_at(once, key)) =~= Set::<FrameView>::empty());
    assert(members_at(once, key).union(members.to_set()) =~= members_at(once, key));
    assert(sadd_store(once, key, members) =~= once);
}

/// The keyspace after each of `members` was added to the set under `key` by a
/// call of its own, one call after the other in the order of `members`.
pub open spec fn one_by_one_store(
    store: StoreView,
    key: Seq<char>,
    members: Seq<FrameView>,
) -> StoreView
    decreases members.len(),
{
    if members.len() == 0 {
        store
    } else {
        sadd_store(one_by_one_store(store, key, members.drop_last()), key, seq![members.last()])
    }
}

/// The sum of the counts that those calls answer with.
pub open spec fn one_by_one_count(
    store: StoreView,
    key: Seq<char>,
    members: Seq<FrameView>,
) -> nat
    decreases members.len(),
{
    if members.len() == 0 {
        0
    } else {
        one_by_one_count(store, key, members.drop_last()) + sadd_count(
            one_by_one_store(store, key, members.drop_last()),
            key,
            seq![members.last()],
        )
    }
}

/// No update is lost when members are added by one call each, in whatever
/// order the calls take effect: the set under the key ends as the set before
/// with all the members, and the counts sum up to the count of one call with
/// all of them. Where the members are distinct and none was in the set, the
/// counts sum up to their number.
pub proof fn lemma_one_by_one(store: StoreView, key: Seq<char>, members: Seq<FrameView>)
    ensures
        members_at(one_by_one_store(store, key, members), key) == members_at(store, key).union(
            members.to_set(),
        ),
        one_by_one_count(store, key, members) == sadd_count(store, key, members),
        members.no_duplicates() && members.to_set().disjoint(members_at(store, key))
            ==> one_by_one_count(store, key, members) == members.len(),
    decreases members.len(),
{
    broadcast use vstd::seq_lib::seq_to_set_is_finite;

    let present = members_at(store, key);
    if members.len() == 0 {
        assert(members.to_set() =~= Set::<FrameView>::empty());
        assert(present.union(members.to_set()) =~= present);
        assert(members.to_set().difference(present) =~= Set::<FrameView>::empty());
    } else {
        let done = members.drop_last();
        let next = members.last();
        let mid = one_by_one_store(store, key, done);
        lemma_one_by_one(store, key, done);
        assert(members == done.push(next));
        lemma_count_step(present, done, next);
        assert(seq![next].to_set() =~= Set::<FrameView>::empty().insert(next)) by {
            assert(seq![next][0] == next);
            assert(forall|v: FrameView| seq![next].contains(v) ==> v == next);
        }
        assert(members_at(mid, key).union(seq![next].to_set()) =~= present.union(
            members.to_set(),
        ));
        if members_at(mid, key).contains(next) {
            assert(seq![next].to_set().difference(members_at(mid, key)) =~= Set::<
                FrameView,
            >::empty());
        } else {
            assert(seq![next].to_set().difference(members_at(mid, key)) =~= Set::<
                FrameView,
            >::empty().insert(next));
        }
    }
    if members.no_duplicates() && members.to_set().disjoint(present) {
        assert(members.to_set().difference(present) =~= members.to_set());
        members.unique_seq_to_set();
    }
}

/// Commands on different keys do not meet: adding under one key leaves the
/// set under another as it was, does not change what a call on the other key
/// counts, and two such calls leave the same keyspace in either order.
pub proof fn lemma_keys_independent(
    store: StoreView,
    key: Seq<char>,
    members: Seq<FrameView>,
    other_key: Seq<char>,
    other_members: Seq<FrameView>,
)
    requires
        key != other_key,
    ensures
        sadd_store(store, key, members).dom().contains(other_key) == store.dom().contains(
            other_key,
        ),
        members_at(sadd_store(store, key, members), other_key) == members_at(store, other_key),
        sadd_count(sadd_store(store, key, members), other_key, other_members) == sadd_count(
            store,
            other_key,
            other_members,
        ),
        sadd_store(sadd_store(store, key, members), other_key, other_members) == sadd_store(
            sadd_store(store, other_key, other_members),
            key,
            members,
        ),
{
    assert(sadd_store(sadd_store(store, key, members), other_key, other_members) =~= sadd_store(
        sadd_store(store, other_key, other_members),
        key,
        members,
    ));
}

} // verus!
