//! Earlier turns of a conversation, given as `user:assistant|user:assistant`.

use crate::text::{
    chars_of, find, first_index, joined, law_join_undoes_split, law_piece_added,
    law_split_undoes_join, opt_text, pieces, split, string_of, texts,
};
use vstd::prelude::*;

verus! {

/// One turn: what the user said and what the assistant said.
pub type Turn = (Seq<char>, Seq<char>);

/// What a list of turns holds.
pub open spec fn turns_of(history: Seq<[String; 2]>) -> Seq<Turn> {
    history.map_values(|turn: [String; 2]| (turn@[0]@, turn@[1]@))
}

/// The turn that `piece` stands for: what is before its first colon and what
/// is after it. A piece without a colon stands for none.
pub open spec fn turn_of(piece: Seq<char>) -> Option<Turn> {
    let at = first_index(piece, ':') as int;
    if at < piece.len() {
        Some((piece.take(at), piece.skip(at + 1)))
    } else {
        None
    }
}

/// The turns that `list` stands for, or the first piece that stands for none.
pub open spec fn read_turns(list: Seq<Seq<char>>) -> Result<Seq<Turn>, Seq<char>>
    decreases list.len(),
{
    if list.len() == 0 {
        Ok(Seq::empty())
    } else {
        match read_turns(list.drop_last()) {
            Err(piece) => Err(piece),
            Ok(before) => match turn_of(list.last()) {
                None => Err(list.last()),
                Some(turn) => Ok(before.push(turn)),
            },
        }
    }
}

/// The history that an optional argument stands for: no turns where it is
/// absent, else a turn for each piece between bars.
pub open spec fn history_of(hist: Option<Seq<char>>) -> Result<Seq<Turn>, Seq<char>> {
    match hist {
        None => Ok(Seq::empty()),
        Some(s) => read_turns(pieces(s, '|')),
    }
}

/// A piece of the history that has no colon.
#[derive(Debug, PartialEq, Eq)]
pub struct InvalidHistory {
    pub piece: String,
}

impl InvalidHistory {
    /// The message for the user.
    pub fn message(&self) -> (r: String)
        ensures
            r@ == "Invalid history format: "@ + self.piece@,
    {
        "Invalid history format: ".to_string().concat(self.piece.as_str())
    }
}

/// Reads one piece of the history.
fn parse_turn(piece: &str) -> (r: Option<[String; 2]>)
    ensures
        match turn_of(piece@) {
            None => r is None,
            Some(turn) => r is Some && (r->0@[0]@, r->0@[1]@) == turn,
        },
{
    let chars = chars_of(piece);
    let at = find(&chars, ':');
    if at < chars.len() {
        let user = string_of(&chars, 0, at);
        let assistant = string_of(&chars, at + 1, chars.len());
        assert(user@ =~= piece@.take(at as int));
        assert(assistant@ =~= piece@.skip(at + 1));
        Some([user, assistant])
    } else {
        None
    }
}

/// A failure among the first pieces is the failure of all of them.
proof fn lemma_first_failure(list: Seq<Seq<char>>, n: int)
    requires
        0 <= n <= list.len(),
        read_turns(list.take(n)) is Err,
    ensures
        read_turns(list) == read_turns(list.take(n)),
    decreases list.len(),
{
    if n == list.len() {
        assert(list.take(n) == list);
    } else {
        assert(list.drop_last().take(n) == list.take(n));
        lemma_first_failure(list.drop_last(), n);
    }
}

/// Reads the earlier turns of a conversation: pieces between bars, each with
/// the user's words before its first colon and the assistant's after it.
pub fn parse_history(hist_str: Option<&str>) -> (r: Result<Vec<[String; 2]>, InvalidHistory>)
    ensures
        match history_of(opt_text(hist_str)) {
            Ok(turns) => r is Ok && turns_of(r->Ok_0@) == turns,
            Err(piece) => r is Err && r->Err_0.piece@ == piece,
        },
{
    let mut history: Vec<[String; 2]> = Vec::new();
    match hist_str {
        None => {
            assert(turns_of(history@) =~= Seq::empty());
        },
        Some(s) => {
            let list = split(s, '|');
            let ghost all = texts(list@);
            let mut i: usize = 0;
            assert(turns_of(history@) =~= Seq::empty());
            while i < list.len()
                invariant
                    i <= list@.len(),
                    all == texts(list@),
                    all == pieces(s@, '|'),
                    hist_str == Some(s),
                    read_turns(all.take(i as int)) == Ok::<Seq<Turn>, Seq<char>>(
                        turns_of(history@),
                    ),
                decreases list@.len() - i,
            {
                assert(all.take(i + 1).drop_last() == all.take(i as int));
                assert(all.take(i + 1).last() == list@[i as int]@);
                match parse_turn(list[i].as_str()) {
                    Some(turn) => {
                        let ghost before = turns_of(history@);
                        history.push(turn);
                        assert(turns_of(history@) =~= before.push((turn@[0]@, turn@[1]@)));
                    },
                    None => {
                        proof {
                            lemma_first_failure(all, i + 1);
                        }
                        return Err(InvalidHistory { piece: list[i].clone() });
                    },
                }
                i = i + 1;
            }
            assert(all.take(all.len() as int) == all);
        },
    }
    Ok(history)
}

/// How a turn is written.
pub open spec fn turn_text(turn: Turn) -> Seq<char> {
    turn.0.push(':') + turn.1
}

/// How turns are written.
pub open spec fn history_text(turns: Seq<Turn>) -> Seq<char> {
    joined(turns.map_values(|turn: Turn| turn_text(turn)), '|')
}

/// Whether a turn can be written: no bar in it, and no colon in the user's
/// words.
pub open spec fn writable(turn: Turn) -> bool {
    &&& !turn.0.contains(':')
    &&& !turn.0.contains('|')
    &&& !turn.1.contains('|')
}

/// The first `c` of a string that begins with `a` and goes on with `c` is that
/// one, where `a` has none.
proof fn lemma_first_index_after(a: Seq<char>, b: Seq<char>, c: char)
    requires
        !a.contains(c),
    ensures
        first_index(a.push(c) + b, c) == a.len(),
    decreases a.len(),
{
    let s = a.push(c) + b;
    if a.len() == 0 {
        assert(s.first() == c);
    } else {
        assert(a.contains(a[0]));
        assert(!a.drop_first().contains(c)) by {
            if a.drop_first().contains(c) {
                let i = choose|i: int| 0 <= i < a.drop_first().len() && a.drop_first()[i] == c;
                assert(a[i + 1] == c);
            }
        }
        assert(s.drop_first() == a.drop_first().push(c) + b);
        lemma_first_index_after(a.drop_first(), b, c);
    }
}

/// Before the first `c` of a string there is no `c`, and there is one at it.
proof fn lemma_first_index(s: Seq<char>, c: char)
    ensures
        first_index(s, c) <= s.len(),
        first_index(s, c) < s.len() ==> s[first_index(s, c) as int] == c,
        !s.take(first_index(s, c) as int).contains(c),
    decreases s.len(),
{
    let at = first_index(s, c) as int;
    if s.len() > 0 && s.first() != c {
        lemma_first_index(s.drop_first(), c);
        assert(s.take(at).drop_first() == s.drop_first().take(at - 1));
        assert(!s.take(at).contains(c)) by {
            if s.take(at).contains(c) {
                let i = choose|i: int| 0 <= i < s.take(at).len() && s.take(at)[i] == c;
                assert(s.take(at).drop_first()[i - 1] == c);
            }
        }
    }
}

/// Turns are read one by one from how they are written.
proof fn lemma_read_written(turns: Seq<Turn>)
    requires
        forall|i: int| 0 <= i < turns.len() ==> writable(#[trigger] turns[i]),
    ensures
        read_turns(turns.map_values(|turn: Turn| turn_text(turn))) == Ok::<Seq<Turn>, Seq<char>>(
            turns,
        ),
    decreases turns.len(),
{
    let list = turns.map_values(|turn: Turn| turn_text(turn));
    if turns.len() == 0 {
        assert(turns == Seq::<Turn>::empty());
    } else {
        let short = turns.drop_last();
        let turn = turns.last();
        lemma_read_written(short);
        assert(list.drop_last() == short.map_values(|turn: Turn| turn_text(turn)));
        assert(writable(turn));
        lemma_first_index_after(turn.0, turn.1, ':');
        assert(list.last() == turn_text(turn));
        assert(turn_text(turn).take(turn.0.len() as int) == turn.0);
        assert(turn_text(turn).skip(turn.0.len() as int + 1) == turn.1);
        assert(short.push(turn) == turns);
    }
}

/// Reading gives back what was written: at least one turn, with no bar in any
/// and no colon in what a user said.
pub proof fn law_history_reads_back(turns: Seq<Turn>)
    requires
        turns.len() > 0,
        forall|i: int| 0 <= i < turns.len() ==> writable(#[trigger] turns[i]),
    ensures
        history_of(Some(history_text(turns))) == Ok::<Seq<Turn>, Seq<char>>(turns),
{
    let list = turns.map_values(|turn: Turn| turn_text(turn));
    assert forall|i: int| 0 <= i < list.len() implies !(#[trigger] list[i]).contains('|') by {
        let turn = turns[i];
        assert(writable(turn));
        if list[i].contains('|') {
            let k = choose|k: int| 0 <= k < list[i].len() && list[i][k] == '|';
            if k < turn.0.len() {
                assert(turn.0[k] == '|');
            } else {
                assert(turn.1[k - turn.0.len() - 1] == '|');
            }
        }
    }
    law_split_undoes_join(list, '|');
    lemma_read_written(turns);
}

/// The turns that were read, written again, are the pieces read.
proof fn lemma_write_read(list: Seq<Seq<char>>, turns: Seq<Turn>)
    requires
        read_turns(list) == Ok::<Seq<Turn>, Seq<char>>(turns),
        forall|i: int| 0 <= i < list.len() ==> !(#[trigger] list[i]).contains('|'),
    ensures
        turns.map_values(|turn: Turn| turn_text(turn)) == list,
        forall|i: int| 0 <= i < turns.len() ==> writable(#[trigger] turns[i]),
    decreases list.len(),
{
    if list.len() == 0 {
        assert(turns.map_values(|turn: Turn| turn_text(turn)) =~= list);
    } else {
        let piece = list.last();
        let turn = turn_of(piece)->0;
        let at = first_index(piece, ':') as int;
        lemma_first_index(piece, ':');
        let before = read_turns(list.drop_last())->Ok_0;
        assert(turns.drop_last() == before);
        lemma_write_read(list.drop_last(), before);
        assert(turn_text(turn) =~= piece);
        assert(turns.drop_last().push(turn) == turns);
        assert(!piece.contains('|'));
        assert(writable(turn)) by {
            if turn.0.contains('|') {
                let i = choose|i: int| 0 <= i < turn.0.len() && turn.0[i] == '|';
                assert(piece[i] == '|');
            }
            if turn.1.contains('|') {
                let i = choose|i: int| 0 <= i < turn.1.len() && turn.1[i] == '|';
                assert(piece[at + 1 + i] == '|');
            }
        }
        assert forall|i: int| 0 <= i < turns.len() implies writable(#[trigger] turns[i]) by {
            if i < turns.len() - 1 {
                assert(turns.drop_last()[i] == turns[i]);
            }
        }
        let written = turns.map_values(|turn: Turn| turn_text(turn));
        assert forall|i: int| 0 <= i < list.len() implies written[i] == list[i] by {
            if i < turns.len() - 1 {
                assert(turns.drop_last().map_values(|turn: Turn| turn_text(turn))[i]
                    == list.drop_last()[i]);
            }
        }
        assert(written =~= list);
    }
}

/// Nothing is lost in reading: a history that is read has at least one turn,
/// and its turns, written again, are the text that was read.
pub proof fn law_history_writes_back(s: Seq<char>)
    requires
        history_of(Some(s)) is Ok,
    ensures
        history_of(Some(s))->Ok_0.len() > 0,
        history_text(history_of(Some(s))->Ok_0) == s,
        forall|i: int|
            0 <= i < history_of(Some(s))->Ok_0.len() ==> writable(
                #[trigger] history_of(Some(s))->Ok_0[i],
            ),
{
    law_join_undoes_split(s, '|');
    lemma_write_read(pieces(s, '|'), history_of(Some(s))->Ok_0);
}

/// A piece stands for a turn if and only if it has a colon.
proof fn lemma_turn_iff_colon(piece: Seq<char>)
    ensures
        turn_of(piece) is Some <==> piece.contains(':'),
{
    lemma_first_index(piece, ':');
    assert(piece.take(piece.len() as int) == piece);
}

/// A history is refused if and only if a piece of it has no colon, and then
/// for the first such piece.
pub proof fn law_history_refused(s: Seq<char>)
    ensures
        history_of(Some(s)) is Ok <==> (forall|i: int|
            0 <= i < pieces(s, '|').len() ==> (#[trigger] pieces(s, '|')[i]).contains(':')),
        history_of(Some(s)) is Err ==> exists|i: int|
            {
                &&& 0 <= i < pieces(s, '|').len()
                &&& #[trigger] pieces(s, '|')[i] == history_of(Some(s))->Err_0
                &&& !pieces(s, '|')[i].contains(':')
                &&& forall|k: int|
                    0 <= k < i ==> (#[trigger] pieces(s, '|')[k]).contains(':')
            },
{
    lemma_refused(pieces(s, '|'));
}

proof fn lemma_refused(list: Seq<Seq<char>>)
    ensures
        read_turns(list) is Ok <==> (forall|i: int|
            0 <= i < list.len() ==> (#[trigger] list[i]).contains(':')),
        read_turns(list) is Err ==> exists|i: int|
            {
                &&& 0 <= i < list.len()
                &&& #[trigger] list[i] == read_turns(list)->Err_0
                &&& !list[i].contains(':')
                &&& forall|k: int| 0 <= k < i ==> (#[trigger] list[k]).contains(':')
            },
    decreases list.len(),
{
    if list.len() > 0 {
        let short = list.drop_last();
        lemma_refused(short);
        lemma_turn_iff_colon(list.last());
        assert(forall|i: int| 0 <= i < short.len() ==> #[trigger] short[i] == list[i]);
        if read_turns(short) is Err {
            let i = choose|i: int|
                {
                    &&& 0 <= i < short.len()
                    &&& #[trigger] short[i] == read_turns(short)->Err_0
                    &&& !short[i].contains(':')
                    &&& forall|k: int| 0 <= k < i ==> (#[trigger] short[k]).contains(':')
                };
            assert(list[i] == read_turns(list)->Err_0);
            assert forall|k: int| 0 <= k < i implies (#[trigger] list[k]).contains(':') by {
                assert(short[k].contains(':'));
            }
        } else {
            assert forall|k: int| 0 <= k < list.len() - 1 implies (#[trigger] list[k]).contains(
                ':',
            ) by {
                assert(short[k].contains(':'));
            }
            if read_turns(list) is Err {
                assert(list[list.len() - 1] == read_turns(list)->Err_0);
            }
        }
    }
}

/// A list of turns holds, for each, what the user said and what the assistant
/// said, in the same order.
pub proof fn law_turns(history: Seq<[String; 2]>)
    ensures
        turns_of(history).len() == history.len(),
        forall|k: int|
            0 <= k < history.len() ==> {
                &&& (#[trigger] turns_of(history)[k]).0 == history[k]@[0]@
                &&& turns_of(history)[k].1 == history[k]@[1]@
            },
{
}

/// The user's words are those before the first colon, and the assistant's are
/// all after it, further colons with them.
pub proof fn law_turn_at_first_colon(user: Seq<char>, assistant: Seq<char>)
    requires
        !user.contains(':'),
    ensures
        turn_of(user.push(':') + assistant) == Some((user, assistant)),
{
    lemma_first_index_after(user, assistant, ':');
    let piece = user.push(':') + assistant;
    assert(piece.take(user.len() as int) =~= user);
    assert(piece.skip(user.len() as int + 1) =~= assistant);
}

/// No argument is no history; one turn alone is a history; and a turn behind a
/// bar is the last turn of a longer one.
pub proof fn law_history_grows(s: Seq<char>, user: Seq<char>, assistant: Seq<char>)
    requires
        !user.contains(':'),
        !user.contains('|'),
        !assistant.contains('|'),
    ensures
        history_of(None) is Ok,
        history_of(None)->Ok_0.len() == 0,
        history_of(Some(user.push(':') + assistant)) is Ok,
        history_of(Some(user.push(':') + assistant))->Ok_0 == seq![(user, assistant)],
        history_of(Some(s)) is Ok ==> {
            let longer = history_of(Some(s.push('|') + (user.push(':') + assistant)));
            &&& longer is Ok
            &&& longer->Ok_0 == history_of(Some(s))->Ok_0.push((user, assistant))
        },
        history_of(Some(s)) is Err ==> history_of(
            Some(s.push('|') + (user.push(':') + assistant)),
        ) == history_of(Some(s)),
{
    let piece = user.push(':') + assistant;
    law_turn_at_first_colon(user, assistant);
    assert(!piece.contains('|')) by {
        if piece.contains('|') {
            let k = choose|k: int| 0 <= k < piece.len() && piece[k] == '|';
            if k < user.len() {
                assert(user[k] == '|');
            } else {
                assert(assistant[k - user.len() - 1] == '|');
            }
        }
    }
    law_piece_added(s, piece, '|');
    let one = seq![piece];
    reveal_with_fuel(read_turns, 2);
    assert(one.drop_last() =~= Seq::empty());
    assert(read_turns(one)->Ok_0 =~= seq![(user, assistant)]);
    let list = pieces(s, '|').push(piece);
    assert(list.drop_last() =~= pieces(s, '|'));
}

} // verus!
