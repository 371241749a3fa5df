//! Short texts the terminal front end shows: token names, hand ranks, actions, chips.

use vstd::prelude::*;

use crate::game::{Action, GameState};
use crate::hand::HandRank;
use crate::shift_token::ShiftToken;
use crate::animation::texts;
use crate::text::{decimal, is_space, is_whitespace, push_decimal};
use crate::turn::{DrawSource, TurnAction};
use crate::PlayerId;

verus! {

/// A short human-readable name for a shift token.
pub open spec fn spec_token_name(token: ShiftToken) -> Seq<char> {
    match token {
        ShiftToken::FreeDraw => "FreeDraw"@,
        ShiftToken::Refund => "Refund"@,
        ShiftToken::ExtraRefund => "ExtraRefund"@,
        ShiftToken::GeneralTariff => "GeneralTariff"@,
        ShiftToken::TargetTariff(_) => "TargetTariff"@,
        ShiftToken::Embargo => "Embargo"@,
        ShiftToken::Markdown => "Markdown"@,
        ShiftToken::Immunity => "Immunity"@,
        ShiftToken::GeneralAudit => "GeneralAudit"@,
        ShiftToken::TargetAudit(_) => "TargetAudit"@,
        ShiftToken::MajorFraud => "MajorFraud"@,
        ShiftToken::Embezzlement => "Embezzlement"@,
        ShiftToken::CookTheBooks => "CookTheBooks"@,
        ShiftToken::Exhaustion(_) => "Exhaustion"@,
        ShiftToken::DirectTransaction(_) => "DirectTransaction"@,
        ShiftToken::PrimeSabacc => "PrimeSabacc"@,
    }
}

/// Returns a short human-readable name for a shift token.
pub fn token_name(token: &ShiftToken) -> (s: String)
    ensures
        s@ == spec_token_name(*token),
{
    let name = match token {
        ShiftToken::FreeDraw => "FreeDraw",
        ShiftToken::Refund => "Refund",
        ShiftToken::ExtraRefund => "ExtraRefund",
        ShiftToken::GeneralTariff => "GeneralTariff",
        ShiftToken::TargetTariff(_) => "TargetTariff",
        ShiftToken::Embargo => "Embargo",
        ShiftToken::Markdown => "Markdown",
        ShiftToken::Immunity => "Immunity",
        ShiftToken::GeneralAudit => "GeneralAudit",
        ShiftToken::TargetAudit(_) => "TargetAudit",
        ShiftToken::MajorFraud => "MajorFraud",
        ShiftToken::Embezzlement => "Embezzlement",
        ShiftToken::CookTheBooks => "CookTheBooks",
        ShiftToken::Exhaustion(_) => "Exhaustion",
        ShiftToken::DirectTransaction(_) => "DirectTransaction",
        ShiftToken::PrimeSabacc => "PrimeSabacc",
    };
    name.to_owned()
}

/// The token as written in logs: its name, then its target in brackets when it has one.
pub open spec fn spec_token_text(token: ShiftToken) -> Seq<char> {
    match token.spec_target() {
        Some(t) => spec_token_name(token) + "("@ + decimal(t as nat) + ")"@,
        None => spec_token_name(token),
    }
}

/// The token as written in logs, e.g. `TargetTariff(2)`.
pub fn token_text(token: &ShiftToken) -> (s: String)
    ensures
        s@ == spec_token_text(*token),
{
    let mut s = token_name(token);
    let target: Option<PlayerId> = match token {
        ShiftToken::TargetTariff(t) | ShiftToken::TargetAudit(t) | ShiftToken::Exhaustion(t)
        | ShiftToken::DirectTransaction(t) => Some(*t),
        _ => None,
    };
    if let Some(t) = target {
        s.append("(");
        push_decimal(&mut s, t as usize);
        s.append(")");
    }
    s
}

/// A one-line summary of a shift token, for the hand panel.
pub open spec fn spec_token_summary(token: ShiftToken) -> Seq<char> {
    match token {
        ShiftToken::FreeDraw => "Free draw"@,
        ShiftToken::Refund => "Recover 2 chips"@,
        ShiftToken::ExtraRefund => "Recover 3 chips"@,
        ShiftToken::GeneralTariff => "All pay 1 chip"@,
        ShiftToken::TargetTariff(_) => "Target pays 2 chips"@,
        ShiftToken::Embargo => "Next must Stand"@,
        ShiftToken::Markdown => "Sylop = 0"@,
        ShiftToken::Immunity => "Token immunity"@,
        ShiftToken::GeneralAudit => "Standing pay 2 chips"@,
        ShiftToken::TargetAudit(_) => "Target standing pays 3"@,
        ShiftToken::MajorFraud => "Impostor locked at 6"@,
        ShiftToken::Embezzlement => "1 chip per opponent"@,
        ShiftToken::CookTheBooks => "Reverse ranking"@,
        ShiftToken::Exhaustion(_) => "Target redraws hand"@,
        ShiftToken::DirectTransaction(_) => "Swap hand w/ target"@,
        ShiftToken::PrimeSabacc => "Dice → best Sabacc"@,
    }
}

/// Returns a one-line summary of a shift token, for the hand panel.
pub fn token_summary(token: &ShiftToken) -> (s: String)
    ensures
        s@ == spec_token_summary(*token),
{
    let text = match token {
        ShiftToken::FreeDraw => "Free draw",
        ShiftToken::Refund => "Recover 2 chips",
        ShiftToken::ExtraRefund => "Recover 3 chips",
        ShiftToken::GeneralTariff => "All pay 1 chip",
        ShiftToken::TargetTariff(_) => "Target pays 2 chips",
        ShiftToken::Embargo => "Next must Stand",
        ShiftToken::Markdown => "Sylop = 0",
        ShiftToken::Immunity => "Token immunity",
        ShiftToken::GeneralAudit => "Standing pay 2 chips",
        ShiftToken::TargetAudit(_) => "Target standing pays 3",
        ShiftToken::MajorFraud => "Impostor locked at 6",
        ShiftToken::Embezzlement => "1 chip per opponent",
        ShiftToken::CookTheBooks => "Reverse ranking",
        ShiftToken::Exhaustion(_) => "Target redraws hand",
        ShiftToken::DirectTransaction(_) => "Swap hand w/ target",
        ShiftToken::PrimeSabacc => "Dice → best Sabacc",
    };
    text.to_owned()
}

/// The token aimed at `target` (tokens without a target are unchanged).
pub open spec fn aimed(token: ShiftToken, target: PlayerId) -> ShiftToken {
    match token {
        ShiftToken::TargetTariff(_) => ShiftToken::TargetTariff(target),
        ShiftToken::TargetAudit(_) => ShiftToken::TargetAudit(target),
        ShiftToken::Exhaustion(_) => ShiftToken::Exhaustion(target),
        ShiftToken::DirectTransaction(_) => ShiftToken::DirectTransaction(target),
        other => other,
    }
}

/// Aim a targeted token at `target`.
pub fn apply_target_to_token(token: &ShiftToken, target: PlayerId) -> (t: ShiftToken)
    ensures
        t == aimed(*token, target),
{
    match token {
        ShiftToken::TargetTariff(_) => ShiftToken::TargetTariff(target),
        ShiftToken::TargetAudit(_) => ShiftToken::TargetAudit(target),
        ShiftToken::Exhaustion(_) => ShiftToken::Exhaustion(target),
        ShiftToken::DirectTransaction(_) => ShiftToken::DirectTransaction(target),
        other => *other,
    }
}

/// The short name of a draw source.
pub open spec fn spec_source_name(source: DrawSource) -> Seq<char> {
    match source {
        DrawSource::SandDeck => "Deck S"@,
        DrawSource::BloodDeck => "Deck B"@,
        DrawSource::SandDiscard => "Déf S"@,
        DrawSource::BloodDiscard => "Déf B"@,
    }
}

/// The short name of a draw source.
pub fn source_name(source: DrawSource) -> (s: &'static str)
    ensures
        s@ == spec_source_name(source),
{
    match source {
        DrawSource::SandDeck => "Deck S",
        DrawSource::BloodDeck => "Deck B",
        DrawSource::SandDiscard => "Déf S",
        DrawSource::BloodDiscard => "Déf B",
    }
}

/// How an action reads in the log.
pub open spec fn spec_action_text(action: Action) -> Seq<char> {
    match action {
        Action::PlayerAction { action: TurnAction::Draw(source), .. } => "Draw "@ + spec_source_name(source),
        Action::PlayerAction { action: TurnAction::Stand, .. } => "Stand"@,
        Action::PlayShiftToken { token, .. } => spec_token_text(token),
        _ => "action"@,
    }
}

/// Describes a game action for log display.
pub fn describe_action(action: &Action, _game: &GameState) -> (s: String)
    ensures
        s@ == spec_action_text(*action),
{
    match action {
        Action::PlayerAction { action: turn_action, .. } => match turn_action {
            TurnAction::Draw(source) => {
                let mut s = "Draw ".to_owned();
                s.append(source_name(*source));
                s
            },
            TurnAction::Stand => "Stand".to_owned(),
        },
        Action::PlayShiftToken { token, .. } => token_text(token),
        _ => "action".to_owned(),
    }
}

/// A short text for a hand rank (fits the log).
pub open spec fn spec_short_rank(rank: HandRank) -> Seq<char> {
    match rank {
        HandRank::PureSabacc => "PureSabacc"@,
        HandRank::PrimeSabacc { value } => "PrimeSabacc("@ + decimal(value as nat) + ")"@,
        HandRank::SylopSabacc { value } => "SylopSabacc("@ + decimal(value as nat) + ")"@,
        HandRank::Sabacc { pair_value } => "Sabacc("@ + decimal(pair_value as nat) + ")"@,
        HandRank::NonSabacc { difference } => "Non("@ + decimal(difference as nat) + ")"@,
    }
}

/// Short display for HandRank (fits ~23 chars in log).
pub fn short_rank(rank: &HandRank) -> (s: String)
    ensures
        s@ == spec_short_rank(*rank),
{
    let (head, n): (&str, Option<u8>) = match rank {
        HandRank::PureSabacc => ("PureSabacc", None),
        HandRank::PrimeSabacc { value } => ("PrimeSabacc(", Some(*value)),
        HandRank::SylopSabacc { value } => ("SylopSabacc(", Some(*value)),
        HandRank::Sabacc { pair_value } => ("Sabacc(", Some(*pair_value)),
        HandRank::NonSabacc { difference } => ("Non(", Some(*difference)),
    };
    let mut s = head.to_owned();
    if let Some(v) = n {
        push_decimal(&mut s, v as usize);
        s.append(")");
    }
    s
}

/// A row of eight chip marks: one filled mark per chip (at most eight), the rest empty.
pub open spec fn spec_chip_dots(count: u8) -> Seq<char> {
    Seq::new(8, |i: int| if i < count { '●' } else { '○' })
}

/// Render chip count as ● (filled) dots, max 8.
pub fn chip_dots(count: u8) -> (s: String)
    ensures
        s@ == spec_chip_dots(count),
{
    proof {
        reveal_strlit("●");
        reveal_strlit("○");
    }
    let mut s = String::new();
    let mut i: u8 = 0;
    while i < 8
        invariant
            i <= 8,
            s@ == spec_chip_dots(count).take(i as int),
        decreases 8 - i,
    {
        proof {
            reveal_strlit("●");
            reveal_strlit("○");
        }
        if i < count {
            s.append("●");
        } else {
            s.append("○");
        }
        assert(s@ =~= spec_chip_dots(count).take(i + 1));
        i = i + 1;
    }
    assert(s@ =~= spec_chip_dots(count));
    s
}

/// `s` cut to `max_chars` characters, the last one replaced by an ellipsis when cut.
pub open spec fn spec_truncate(s: Seq<char>, max_chars: nat) -> Seq<char> {
    if s.len() <= max_chars {
        s
    } else {
        s.take(if max_chars >= 1 { max_chars - 1 } else { 0 }) + "…"@
    }
}

/// Truncate a string to `max_chars` character width.
pub fn truncate(s: &str, max_chars: usize) -> (r: String)
    ensures
        r@ == spec_truncate(s@, max_chars as nat),
{
    let n = s.unicode_len();
    if n <= max_chars {
        s.to_owned()
    } else {
        let keep = if max_chars >= 1 { max_chars - 1 } else { 0 };
        let mut r = s.substring_char(0, keep).to_owned();
        r.append("…");
        r
    }
}

/// `s` without its trailing whitespace.
pub open spec fn trimmed_end(s: Seq<char>) -> Seq<char>
    decreases s.len(),
{
    if s.len() > 0 && is_space(s.last()) {
        trimmed_end(s.drop_last())
    } else {
        s
    }
}

/// `s` without its leading whitespace.
pub open spec fn trimmed_start(s: Seq<char>) -> Seq<char>
    decreases s.len(),
{
    if s.len() > 0 && is_space(s[0]) {
        trimmed_start(s.drop_first())
    } else {
        s
    }
}

/// The position of the last space character in `s`, or -1.
pub open spec fn last_space(s: Seq<char>) -> int
    decreases s.len(),
{
    if s.len() == 0 {
        -1
    } else if s.last() == ' ' {
        s.len() - 1
    } else {
        last_space(s.drop_last())
    }
}

/// Where the first line of `s` ends: just after the last space among its first `usable`
/// characters, or after `usable` characters when there is none.
pub open spec fn line_break(s: Seq<char>, usable: nat) -> int {
    let p = last_space(s.take(usable as int));
    if p >= 0 {
        p + 1
    } else {
        usable as int
    }
}

/// The last space, if any, is a position of the sequence.
pub proof fn lemma_last_space_range(s: Seq<char>)
    ensures
        -1 <= last_space(s) < s.len(),
        last_space(s) >= 0 ==> s[last_space(s)] == ' ',
    decreases s.len(),
{
    if s.len() > 0 && s.last() != ' ' {
        lemma_last_space_range(s.drop_last());
    }
}

/// Trimming the front never lengthens a text.
pub proof fn lemma_trimmed_start_len(s: Seq<char>)
    ensures
        trimmed_start(s).len() <= s.len(),
    decreases s.len(),
{
    if s.len() > 0 && is_space(s[0]) {
        lemma_trimmed_start_len(s.drop_first());
    }
}

/// `s` broken into lines of at most `usable` characters, greedily: each line ends at the
/// last space that fits (or is cut at `usable` characters when none does), loses its
/// trailing whitespace, and the next line starts after the whitespace that follows.
pub open spec fn wrapped(s: Seq<char>, usable: nat) -> Seq<Seq<char>>
    decreases s.len(),
{
    if s.len() == 0 || usable == 0 {
        Seq::empty()
    } else if s.len() <= usable {
        seq![s]
    } else {
        let k = line_break(s, usable);
        proof {
            lemma_last_space_range(s.take(usable as int));
            lemma_trimmed_start_len(s.skip(k));
        }
        seq![trimmed_end(s.take(k))] + wrapped(trimmed_start(s.skip(k)), usable)
    }
}

/// The lines of `text` in a log panel `max_width` wide, two columns of which go to the
/// line's prefix: the text unbroken when no column is left, one empty line for an
/// empty text, else the greedy wrap.
pub open spec fn spec_wrap_text(text: Seq<char>, max_width: nat) -> Seq<Seq<char>> {
    let usable: nat = if max_width >= 2 {
        (max_width - 2) as nat
    } else {
        0
    };
    if usable == 0 {
        seq![text]
    } else if text.len() == 0 {
        seq![Seq::<char>::empty()]
    } else {
        wrapped(text, usable)
    }
}

/// The characters of `s` that are not whitespace, in order.
pub open spec fn non_space(s: Seq<char>) -> Seq<char>
    decreases s.len(),
{
    if s.len() == 0 {
        Seq::empty()
    } else {
        non_space(s.drop_last()) + if is_space(s.last()) {
            Seq::empty()
        } else {
            seq![s.last()]
        }
    }
}

/// The lines one after the other.
pub open spec fn joined(ls: Seq<Seq<char>>) -> Seq<char>
    decreases ls.len(),
{
    if ls.len() == 0 {
        Seq::empty()
    } else {
        ls[0] + joined(ls.drop_first())
    }
}

/// One line joined is that line.
proof fn lemma_joined_one(x: Seq<char>)
    ensures
        joined(seq![x]) == x,
{
    reveal_with_fuel(joined, 2);
    assert(seq![x].drop_first() =~= Seq::<Seq<char>>::empty());
    assert(x + Seq::<char>::empty() =~= x);
}

/// A single whitespace character has no character that is not whitespace.
proof fn lemma_non_space_one(c: char)
    requires
        is_space(c),
    ensures
        non_space(seq![c]) == Seq::<char>::empty(),
{
    reveal_with_fuel(non_space, 2);
    assert(seq![c].drop_last() =~= Seq::<char>::empty());
    assert(seq![c].last() == c);
    assert(Seq::<char>::empty() + Seq::<char>::empty() =~= Seq::<char>::empty());
}

proof fn lemma_non_space_add(a: Seq<char>, b: Seq<char>)
    ensures
        non_space(a + b) == non_space(a) + non_space(b),
    decreases b.len(),
{
    if b.len() == 0 {
        assert(a + b =~= a);
        assert(non_space(a) + non_space(b) =~= non_space(a));
    } else {
        lemma_non_space_add(a, b.drop_last());
        assert((a + b).drop_last() =~= a + b.drop_last());
        assert((a + b).last() == b.last());
    }
}

proof fn lemma_non_space_trimmed_end(s: Seq<char>)
    ensures
        non_space(trimmed_end(s)) == non_space(s),
    decreases s.len(),
{
    if s.len() > 0 && is_space(s.last()) {
        lemma_non_space_trimmed_end(s.drop_last());
        assert(non_space(s) =~= non_space(s.drop_last()));
    }
}

proof fn lemma_non_space_trimmed_start(s: Seq<char>)
    ensures
        non_space(trimmed_start(s)) == non_space(s),
    decreases s.len(),
{
    if s.len() > 0 && is_space(s[0]) {
        lemma_non_space_trimmed_start(s.drop_first());
        assert(s =~= seq![s[0]] + s.drop_first());
        lemma_non_space_add(seq![s[0]], s.drop_first());
        lemma_non_space_one(s[0]);
        assert(non_space(s) =~= non_space(s.drop_first()));
    }
}

proof fn lemma_trimmed_end_len(s: Seq<char>)
    ensures
        trimmed_end(s).len() <= s.len(),
    decreases s.len(),
{
    if s.len() > 0 && is_space(s.last()) {
        lemma_trimmed_end_len(s.drop_last());
    }
}

/// Every line of the wrap fits in `usable` characters, and the lines hold exactly the
/// characters of `s` that are not whitespace, in order.
pub proof fn lemma_wrapped_lines(s: Seq<char>, usable: nat)
    requires
        usable > 0,
    ensures
        forall|i: int| 0 <= i < wrapped(s, usable).len() ==> (#[trigger] wrapped(s, usable)[i]).len() <= usable,
        non_space(joined(wrapped(s, usable))) == non_space(s),
    decreases s.len(),
{
    let w = wrapped(s, usable);
    if s.len() == 0 {
        assert(non_space(s) =~= Seq::<char>::empty());
    } else if s.len() <= usable {
        lemma_joined_one(s);
    } else {
        let k = line_break(s, usable);
        lemma_last_space_range(s.take(usable as int));
        lemma_trimmed_start_len(s.skip(k));
        let first = trimmed_end(s.take(k));
        let rest = trimmed_start(s.skip(k));
        lemma_wrapped_lines(rest, usable);
        lemma_trimmed_end_len(s.take(k));
        assert(w == seq![first] + wrapped(rest, usable));
        assert(w[0] == first);
        assert(w.drop_first() =~= wrapped(rest, usable));
        assert forall|i: int| 0 <= i < w.len() implies (#[trigger] w[i]).len() <= usable by {
            if i > 0 {
                assert(w[i] == wrapped(rest, usable)[i - 1]);
            }
        }
        lemma_non_space_add(first, joined(wrapped(rest, usable)));
        lemma_non_space_trimmed_end(s.take(k));
        lemma_non_space_trimmed_start(s.skip(k));
        assert(s =~= s.take(k) + s.skip(k));
        lemma_non_space_add(s.take(k), s.skip(k));
    }
}

/// The last space found by a scan from the back.
proof fn lemma_last_space_is(s: Seq<char>, m: int)
    requires
        0 <= m <= s.len(),
        forall|i: int| m <= i < s.len() ==> s[i] != ' ',
        m > 0 ==> s[m - 1] == ' ',
    ensures
        last_space(s) == m - 1,
    decreases s.len(),
{
    if s.len() > 0 && m < s.len() {
        lemma_last_space_is(s.drop_last(), m);
    }
}

/// The trailing whitespace found by a scan from the back.
proof fn lemma_trimmed_end_is(s: Seq<char>, m: int)
    requires
        0 <= m <= s.len(),
        forall|i: int| m <= i < s.len() ==> is_space(s[i]),
        m > 0 ==> !is_space(s[m - 1]),
    ensures
        trimmed_end(s) == s.take(m),
    decreases s.len(),
{
    if m < s.len() {
        lemma_trimmed_end_is(s.drop_last(), m);
        assert(s.drop_last().take(m) =~= s.take(m));
    } else {
        assert(s.take(m) =~= s);
    }
}

/// The leading whitespace found by a scan from the front.
proof fn lemma_trimmed_start_is(s: Seq<char>, m: int)
    requires
        0 <= m <= s.len(),
        forall|i: int| 0 <= i < m ==> is_space(s[i]),
        m < s.len() ==> !is_space(s[m]),
    ensures
        trimmed_start(s) == s.skip(m),
    decreases m,
{
    if m > 0 {
        lemma_trimmed_start_is(s.drop_first(), m - 1);
        assert(s.drop_first().skip(m - 1) =~= s.skip(m));
    } else {
        assert(s.skip(0) =~= s);
    }
}

/// Wraps text into lines that fit within `max_width`, accounting for the 2-char prefix
/// ("› " or "  ") that will be added later.
pub fn wrap_text(text: &str, max_width: usize) -> (lines: Vec<String>)
    ensures
        texts(lines@) == spec_wrap_text(text@, max_width as nat),
        max_width > 2 ==> forall|i: int| 0 <= i < lines@.len() ==> (#[trigger] lines@[i])@.len() <= max_width - 2,
        non_space(joined(texts(lines@))) == non_space(text@),
{
    let ghost t = text@;
    let usable: usize = if max_width >= 2 {
        max_width - 2
    } else {
        0
    };
    let n = text.unicode_len();
    let mut lines: Vec<String> = Vec::new();
    if usable == 0 {
        lines.push(text.to_owned());
        proof {
            assert(texts(lines@) =~= seq![t]);
            lemma_joined_one(t);
        }
        return lines;
    }
    let mut start: usize = 0;
    assert(t.skip(0) =~= t);
    assert(texts(lines@) + wrapped(t, usable as nat) =~= wrapped(t, usable as nat));
    while start < n
        invariant
            n == t.len(),
            text@ == t,
            usable > 0,
            usable == (if max_width >= 2 { max_width - 2 } else { 0 }),
            start <= n,
            texts(lines@) + wrapped(t.skip(start as int), usable as nat) == wrapped(t, usable as nat),
        decreases n - start,
    {
        let ghost s = t.skip(start as int);
        let ghost before = lines@;
        if n - start <= usable {
            lines.push(text.substring_char(start, n).to_owned());
            proof {
                assert(wrapped(s, usable as nat) == seq![s]);
                assert(t.subrange(start as int, n as int) =~= s);
                assert(t.skip(n as int) =~= Seq::<char>::empty());
                assert(texts(lines@) =~= texts(before).push(s));
                assert(texts(lines@) + wrapped(t.skip(n as int), usable as nat) =~= texts(before) + seq![s]);
            }
            start = n;
        } else {
            let mut j: usize = start + usable;
            while j > start && text.get_char(j - 1) != ' '
                invariant
                    start < j <= start + usable || j == start,
                    start + usable < n,
                    n == t.len(),
                    text@ == t,
                    forall|i: int| j <= i < start + usable ==> t[i] != ' ',
                decreases j,
            {
                j = j - 1;
            }
            let k: usize = if j > start {
                j - start
            } else {
                usable
            };
            proof {
                lemma_last_space_is(s.take(usable as int), (j - start) as int);
                assert(k as int == line_break(s, usable as nat));
            }
            let mut e: usize = start + k;
            while e > start && is_whitespace(text.get_char(e - 1))
                invariant
                    start <= e <= start + k,
                    start + k <= n,
                    n == t.len(),
                    text@ == t,
                    forall|i: int| e <= i < start + k ==> is_space(t[i]),
                decreases e,
            {
                e = e - 1;
            }
            let mut s2: usize = start + k;
            while s2 < n && is_whitespace(text.get_char(s2))
                invariant
                    start + k <= s2 <= n,
                    n == t.len(),
                    text@ == t,
                    forall|i: int| start + k <= i < s2 ==> is_space(t[i]),
                decreases n - s2,
            {
                s2 = s2 + 1;
            }
            lines.push(text.substring_char(start, e).to_owned());
            proof {
                let first = s.take(k as int);
                lemma_trimmed_end_is(first, (e - start) as int);
                assert(first.take((e - start) as int) =~= t.subrange(start as int, e as int));
                let after = s.skip(k as int);
                lemma_trimmed_start_is(after, (s2 - start - k) as int);
                assert(after.skip((s2 - start - k) as int) =~= t.skip(s2 as int));
                assert(wrapped(s, usable as nat) == seq![trimmed_end(first)] + wrapped(trimmed_start(after), usable as nat));
                assert(texts(lines@) =~= texts(before).push(t.subrange(start as int, e as int)));
                assert(texts(lines@) + wrapped(t.skip(s2 as int), usable as nat) =~= texts(before) + wrapped(s, usable as nat));
            }
            start = s2;
        }
    }
    proof {
        assert(t.skip(n as int) =~= Seq::<char>::empty());
        assert(texts(lines@) + Seq::<Seq<char>>::empty() =~= texts(lines@));
        lemma_wrapped_lines(t, usable as nat);
    }
    if lines.len() == 0 {
        lines.push(String::new());
        proof {
            assert(texts(lines@) =~= seq![Seq::<char>::empty()]);
            if t.len() > 0 {
                assert(wrapped(t, usable as nat).len() > 0);
            }
            lemma_joined_one(Seq::<char>::empty());
            assert(t =~= Seq::<char>::empty());
        }
    }
    assert forall|i: int| 0 <= i < lines@.len() implies (#[trigger] lines@[i])@.len() <= usable by {
        assert(texts(lines@)[i] == lines@[i]@);
    }
    lines
}

} // verus!
