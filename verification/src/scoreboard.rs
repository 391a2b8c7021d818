use vstd::prelude::*;
use vstd::string::StringExecFns;
use crate::paddle::Paddle;
use crate::player::PlayerId;

verus! {

/// The text field that shows one player's score.
#[derive(Debug)]
pub struct ScoreDisplay {
    pub player: PlayerId,
    pub text: String,
}

/// The character of a decimal digit.
pub open spec fn digit_char(digit: nat) -> char {
    if digit == 0 {
        '0'
    } else if digit == 1 {
        '1'
    } else if digit == 2 {
        '2'
    } else if digit == 3 {
        '3'
    } else if digit == 4 {
        '4'
    } else if digit == 5 {
        '5'
    } else if digit == 6 {
        '6'
    } else if digit == 7 {
        '7'
    } else if digit == 8 {
        '8'
    } else {
        '9'
    }
}

/// A number in decimal digits, without leading zeros.
pub open spec fn decimal(n: nat) -> Seq<char>
    decreases n,
{
    if n < 10 {
        seq![digit_char(n)]
    } else {
        decimal(n / 10).push(digit_char(n % 10))
    }
}

/// What a display shows: the name, a colon, the score.
pub open spec fn label(name: Seq<char>, score: nat) -> Seq<char> {
    name + seq![':'] + decimal(score)
}

/// What a display of `player` shows once it was held against `paddles`
/// in order: the label of the last paddle of that player, and `text`
/// where there is none.
pub open spec fn shown(text: Seq<char>, player: PlayerId, paddles: Seq<Paddle>) -> Seq<char>
    decreases paddles.len(),
{
    if paddles.len() == 0 {
        text
    } else if paddles.last().player == player {
        label(paddles.last().name@, paddles.last().score as nat)
    } else {
        shown(text, player, paddles.drop_last())
    }
}

fn digit_text(digit: u64) -> (text: &'static str)
    requires
        digit < 10,
    ensures
        text@ == seq![digit_char(digit as nat)],
{
    proof {
        reveal_strlit("0");
        reveal_strlit("1");
        reveal_strlit("2");
        reveal_strlit("3");
        reveal_strlit("4");
        reveal_strlit("5");
        reveal_strlit("6");
        reveal_strlit("7");
        reveal_strlit("8");
        reveal_strlit("9");
    }
    let text: &'static str = if digit == 0 {
        "0"
    } else if digit == 1 {
        "1"
    } else if digit == 2 {
        "2"
    } else if digit == 3 {
        "3"
    } else if digit == 4 {
        "4"
    } else if digit == 5 {
        "5"
    } else if digit == 6 {
        "6"
    } else if digit == 7 {
        "7"
    } else if digit == 8 {
        "8"
    } else {
        "9"
    };
    assert(text@ =~= seq![digit_char(digit as nat)]);
    text
}

/// The digits of `n` from the last to the first.
spec fn digits_reversed(n: nat) -> Seq<nat>
    decreases n,
{
    if n < 10 {
        seq![n]
    } else {
        seq![n % 10] + digits_reversed(n / 10)
    }
}

/// The characters of the digits in `reversed`, put in reading order.
spec fn read_back(reversed: Seq<nat>) -> Seq<char>
    decreases reversed.len(),
{
    if reversed.len() == 0 {
        Seq::empty()
    } else {
        read_back(reversed.drop_first()).push(digit_char(reversed.first()))
    }
}

proof fn decimal_reads_back(n: nat)
    ensures
        decimal(n) == read_back(digits_reversed(n)),
        digits_reversed(n).len() >= 1,
        forall|i: int| 0 <= i < digits_reversed(n).len() ==> digits_reversed(n)[i] < 10,
    decreases n,
{
    if n < 10 {
        let one = seq![n];
        assert(one.drop_first() =~= Seq::<nat>::empty());
        assert(read_back(one.drop_first()) =~= Seq::<char>::empty());
        assert(read_back(one) =~= seq![digit_char(n)]);
    } else {
        decimal_reads_back(n / 10);
        let all = digits_reversed(n);
        assert(all.drop_first() =~= digits_reversed(n / 10));
        assert(all.first() == n % 10);
    }
}

proof fn read_back_splits(reversed: Seq<nat>, at: int)
    requires
        0 <= at < reversed.len(),
    ensures
        read_back(reversed.skip(at)) == read_back(reversed.skip(at + 1)).push(
            digit_char(reversed[at]),
        ),
{
    let tail = reversed.skip(at);
    assert(tail.drop_first() =~= reversed.skip(at + 1));
    assert(tail.first() == reversed[at]);
}

/// Writes the label of a paddle: its name, a colon and its score in decimal digits.
pub fn score_label(name: &String, score: u64) -> (text: String)
    ensures
        text@ == label(name@, score as nat),
{
    let mut reversed: Vec<u64> = Vec::new();
    let mut rest: u64 = score;
    reversed.push(rest % 10);
    rest = rest / 10;
    proof {
        assert(reversed@.map_values(|d: u64| d as nat) =~= seq![(score % 10) as nat]);
        if score < 10 {
            assert(digits_reversed(score as nat) =~= seq![(score % 10) as nat] + Seq::<nat>::empty());
        }
    }
    while rest > 0
        invariant
            digits_reversed(score as nat) == reversed@.map_values(|d: u64| d as nat) + (if rest
                > 0 {
                digits_reversed(rest as nat)
            } else {
                Seq::<nat>::empty()
            }),
            forall|i: int| 0 <= i < reversed@.len() ==> reversed@[i] < 10,
        decreases rest,
    {
        let ghost before = reversed@.map_values(|d: u64| d as nat);
        let ghost old_rest = rest;
        reversed.push(rest % 10);
        rest = rest / 10;
        proof {
            let after = reversed@.map_values(|d: u64| d as nat);
            assert(after =~= before.push((old_rest % 10) as nat));
            let tail = if rest > 0 {
                digits_reversed(rest as nat)
            } else {
                Seq::<nat>::empty()
            };
            assert(digits_reversed(old_rest as nat) =~= seq![(old_rest % 10) as nat] + tail);
            assert(before + (seq![(old_rest % 10) as nat] + tail) =~= after + tail);
        }
    }
    let ghost digits = reversed@.map_values(|d: u64| d as nat);
    assert(digits =~= digits_reversed(score as nat));
    let mut text: String = name.clone();
    proof {
        reveal_strlit(":");
    }
    text.append(":");
    assert(text@ =~= name@ + seq![':']);
    let mut i: usize = reversed.len();
    assert(digits.skip(i as int) =~= Seq::<nat>::empty());
    while i > 0
        invariant
            i <= reversed@.len(),
            digits == reversed@.map_values(|d: u64| d as nat),
            forall|j: int| 0 <= j < reversed@.len() ==> reversed@[j] < 10,
            text@ == name@ + seq![':'] + read_back(digits.skip(i as int)),
        decreases i,
    {
        i = i - 1;
        proof {
            read_back_splits(digits, i as int);
        }
        text.append(digit_text(reversed[i]));
        assert(text@ =~= name@ + seq![':'] + read_back(digits.skip(i as int)));
    }
    proof {
        assert(digits.skip(0) =~= digits);
        decimal_reads_back(score as nat);
    }
    text
}

/// Brings one display up to date against the paddles, in order.
pub fn refresh_display(display: &mut ScoreDisplay, paddles: &Vec<Paddle>)
    ensures
        final(display).player == old(display).player,
        final(display).text@ == shown(old(display).text@, old(display).player, paddles@),
{
    let mut j: usize = 0;
    assert(paddles@.take(0) =~= Seq::<Paddle>::empty());
    while j < paddles.len()
        invariant
            j <= paddles@.len(),
            display.player == old(display).player,
            display.text@ == shown(old(display).text@, old(display).player, paddles@.take(j as int)),
        decreases paddles@.len() - j,
    {
        proof {
            let longer = paddles@.take(j as int + 1);
            assert(longer.drop_last() =~= paddles@.take(j as int));
            assert(longer.last() == paddles@[j as int]);
        }
        if display.player == paddles[j].player {
            display.text = score_label(&paddles[j].name, paddles[j].score);
        }
        j = j + 1;
    }
    assert(paddles@.take(j as int) =~= paddles@);
}

/// Brings every display up to date: each shows the label of the paddle
/// of its player.
pub fn scoreboard_system(displays: &mut Vec<ScoreDisplay>, paddles: &Vec<Paddle>)
    ensures
        final(displays)@.len() == old(displays)@.len(),
        forall|i: int|
            0 <= i < old(displays)@.len() ==> (#[trigger] final(displays)@[i]).player == old(
                displays,
            )@[i].player && final(displays)@[i].text@ == shown(
                old(displays)@[i].text@,
                old(displays)@[i].player,
                paddles@,
            ),
{
    let mut i: usize = 0;
    while i < displays.len()
        invariant
            i <= displays@.len(),
            displays@.len() == old(displays)@.len(),
            forall|k: int|
                0 <= k < i ==> (#[trigger] displays@[k]).player == old(displays)@[k].player
                    && displays@[k].text@ == shown(
                    old(displays)@[k].text@,
                    old(displays)@[k].player,
                    paddles@,
                ),
            forall|k: int| i <= k < displays@.len() ==> displays@[k] == old(displays)@[k],
        decreases displays@.len() - i,
    {
        refresh_display(&mut displays[i], paddles);
        i = i + 1;
    }
}

/// Where just one paddle is a player's, that paddle's label is shown.
pub proof fn lone_paddle_is_shown(text: Seq<char>, player: PlayerId, paddles: Seq<Paddle>, index: int)
    requires
        0 <= index < paddles.len(),
        paddles[index].player == player,
        forall|k: int| 0 <= k < paddles.len() && k != index ==> paddles[k].player != player,
    ensures
        shown(text, player, paddles) == label(paddles[index].name@, paddles[index].score as nat),
    decreases paddles.len(),
{
    if index < paddles.len() - 1 {
        lone_paddle_is_shown(text, player, paddles.drop_last(), index);
    }
}

} // verus!
