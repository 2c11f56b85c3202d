//! The board of the game: a square grid of cells that two players fill in
//! turn, and the rule that decides who has won.

use crate::action::Verdict;
use crate::clock::random_number;
use vstd::prelude::*;

verus! {

/// Number of rows, and of columns, of the board.
pub const BOARD_SIZE: usize = 3;

/// What an unclaimed cell holds.
pub const EMPTY: char = ' ';

/// One of the two players.
#[derive(Clone, Copy, Debug, PartialEq, Eq, Structural)]
pub enum Player {
    /// The player who moves first.
    X,
    /// The player who moves second.
    O,
}

impl Player {
    /// The character that marks this player's cells.
    pub open spec fn spec_mark(self) -> char {
        match self {
            Player::X => 'x',
            Player::O => 'o',
        }
    }

    /// The character that marks this player's cells.
    #[verifier::when_used_as_spec(spec_mark)]
    pub fn mark(self) -> (mark: char)
        ensures
            mark == self.spec_mark(),
            mark != EMPTY,
    {
        match self {
            Player::X => 'x',
            Player::O => 'o',
        }
    }

    /// The other player.
    pub open spec fn spec_opponent(self) -> Player {
        match self {
            Player::X => Player::O,
            Player::O => Player::X,
        }
    }

    /// The other player.
    #[verifier::when_used_as_spec(spec_opponent)]
    pub fn opponent(self) -> (other: Player)
        ensures
            other == self.spec_opponent(),
    {
        match self {
            Player::X => Player::O,
            Player::O => Player::X,
        }
    }
}

/// The mark that owns a line of cells: the mark of its first cell, if that
/// cell is claimed and every other cell of the line holds the same mark.
pub open spec fn line_mark(line: Seq<char>) -> Option<char> {
    if line.len() > 0 && line[0] != EMPTY && (forall|m: int|
        0 <= m < line.len() ==> #[trigger] line[m] == line[0]) {
        Some(line[0])
    } else {
        None
    }
}

/// The mark that owns the first owned line among `lines`.
pub open spec fn first_line(lines: Seq<Seq<char>>) -> Option<char>
    decreases lines.len(),
{
    if lines.len() == 0 {
        None
    } else {
        match first_line(lines.drop_last()) {
            Some(mark) => Some(mark),
            None => line_mark(lines.last()),
        }
    }
}

/// The grid and the number of cells still unclaimed.
pub struct Board {
    state: [[char; 3]; 3],
    slots: usize,
}

impl Board {
    /// What the cell in `row` and `column` holds.
    pub closed spec fn at(self, row: int, column: int) -> char {
        self.state@[row]@[column]
    }

    /// One if the cell in `row` and `column` is unclaimed, zero if not.
    pub open spec fn vacancy(self, row: int, column: int) -> nat {
        if self.at(row, column) == EMPTY {
            1
        } else {
            0
        }
    }

    /// How many cells are unclaimed.
    pub open spec fn vacancies(self) -> nat {
        self.vacancy(0, 0) + self.vacancy(0, 1) + self.vacancy(0, 2) + self.vacancy(1, 0)
            + self.vacancy(1, 1) + self.vacancy(1, 2) + self.vacancy(2, 0) + self.vacancy(2, 1)
            + self.vacancy(2, 2)
    }

    #[verifier::type_invariant]
    closed spec fn slots_count_vacancies(self) -> bool {
        self.slots == self.vacancies()
    }

    /// Whether `row` and `column` name a cell, and that cell is unclaimed.
    pub open spec fn free(self, row: int, column: int) -> bool {
        0 <= row < BOARD_SIZE && 0 <= column < BOARD_SIZE && self.at(row, column) == EMPTY
    }

    /// Whether `after` is this board with `mark` put into the cell in `row`
    /// and `column`, and every other cell as it was.
    pub open spec fn marked(self, row: int, column: int, mark: char, after: Board) -> bool {
        forall|i: int, j: int|
            0 <= i < BOARD_SIZE && 0 <= j < BOARD_SIZE ==> #[trigger] after.at(i, j) == if i == row
                && j == column {
                mark
            } else {
                self.at(i, j)
            }
    }

    /// The cells of row `k`, from the left.
    pub open spec fn row(self, k: int) -> Seq<char> {
        Seq::new(BOARD_SIZE as nat, |m: int| self.at(k, m))
    }

    /// The cells of column `k`, from the top.
    pub open spec fn column(self, k: int) -> Seq<char> {
        Seq::new(BOARD_SIZE as nat, |m: int| self.at(m, k))
    }

    /// The cells of the diagonal that starts at the top left.
    pub open spec fn diagonal(self) -> Seq<char> {
        Seq::new(BOARD_SIZE as nat, |k: int| self.at(k, k))
    }

    /// The cells of the diagonal that starts at the top right.
    pub open spec fn antidiagonal(self) -> Seq<char> {
        Seq::new(BOARD_SIZE as nat, |k: int| self.at(k, BOARD_SIZE - k - 1))
    }

    /// The mark that has won: the owner of the first owned line, looking at
    /// the rows from the top, then at the columns from the left, then at the
    /// diagonal from the top left and last at the diagonal from the top
    /// right.
    pub open spec fn winner(self) -> Option<char> {
        match first_line(Seq::new(BOARD_SIZE as nat, |k: int| self.row(k))) {
            Some(mark) => Some(mark),
            None => match first_line(Seq::new(BOARD_SIZE as nat, |k: int| self.column(k))) {
                Some(mark) => Some(mark),
                None => match line_mark(self.diagonal()) {
                    Some(mark) => Some(mark),
                    None => line_mark(self.antidiagonal()),
                },
            },
        }
    }

    /// An empty board.
    pub fn new() -> (board: Board)
        ensures
            forall|i: int, j: int|
                0 <= i < BOARD_SIZE && 0 <= j < BOARD_SIZE ==> board.at(i, j) == EMPTY,
            board.vacancies() == BOARD_SIZE * BOARD_SIZE,
    {
        Board { state: [[EMPTY; 3]; 3], slots: BOARD_SIZE * BOARD_SIZE }
    }

    /// How many cells are unclaimed.
    pub fn slots(&self) -> (slots: usize)
        ensures
            slots == self.vacancies(),
            slots <= BOARD_SIZE * BOARD_SIZE,
    {
        proof {
            use_type_invariant(self);
        }
        self.slots
    }

    /// What the cell in `row` and `column` holds, if there is such a cell.
    pub fn cell(&self, row: usize, column: usize) -> (held: Option<char>)
        ensures
            held == if row < BOARD_SIZE && column < BOARD_SIZE {
                Some(self.at(row as int, column as int))
            } else {
                None
            },
    {
        if row < BOARD_SIZE && column < BOARD_SIZE {
            Some(self.state[row][column])
        } else {
            None
        }
    }

    /// Whether `row` and `column` name a cell, and that cell is unclaimed.
    pub fn is_free(&self, row: usize, column: usize) -> (yes: bool)
        ensures
            yes == self.free(row as int, column as int),
    {
        row < BOARD_SIZE && column < BOARD_SIZE && self.state[row][column] == EMPTY
    }

    /// Claims the cell in `row` and `column` for `player`, if there is such a
    /// cell and it is unclaimed.  Otherwise the board stays as it is and the
    /// result is `false`.
    pub fn place(&mut self, row: usize, column: usize, player: Player) -> (placed: bool)
        ensures
            placed == old(self).free(row as int, column as int),
            placed ==> old(self).marked(row as int, column as int, player.spec_mark(), *final(self))
                && final(self).vacancies() == old(self).vacancies() - 1,
            !placed ==> *final(self) == *old(self),
    {
        proof {
            use_type_invariant(&*self);
        }
        if !self.is_free(row, column) {
            return false;
        }
        let mut state = self.state;
        state[row][column] = player.mark();
        *self = Board { state, slots: self.slots - 1 };
        true
    }
}

/// Once a line among the first `i` lines is owned, looking at more lines does
/// not change the answer.
pub proof fn lemma_first_line_prefix(lines: Seq<Seq<char>>, i: int, j: int)
    requires
        0 <= i <= j <= lines.len(),
        first_line(lines.take(i)) is Some,
    ensures
        first_line(lines.take(j)) == first_line(lines.take(i)),
    decreases j - i,
{
    if i < j {
        lemma_first_line_prefix(lines, i, j - 1);
        assert(lines.take(j).drop_last() == lines.take(j - 1));
    }
}

impl Board {
    /// Looks through a family of parallel lines, where `get_value(k, m)` is
    /// cell `m` of line `k`, for the first line that one mark owns.
    fn check_straight<F: Fn(usize, usize) -> char>(
        &self,
        get_value: F,
        Ghost(lines): Ghost<Seq<Seq<char>>>,
    ) -> (winner: Option<char>)
        requires
            lines.len() == BOARD_SIZE,
            forall|k: int| 0 <= k < BOARD_SIZE ==> (#[trigger] lines[k]).len() == BOARD_SIZE,
            forall|k: usize, m: usize|
                k < BOARD_SIZE && m < BOARD_SIZE ==> call_requires(get_value, (k, m)),
            forall|k: usize, m: usize, c: char|
                k < BOARD_SIZE && m < BOARD_SIZE && call_ensures(get_value, (k, m), c) ==> c
                    == lines[k as int][m as int],
        ensures
            winner == first_line(lines),
    {
        let mut k: usize = 0;
        while k < BOARD_SIZE
            invariant
                k <= BOARD_SIZE,
                lines.len() == BOARD_SIZE,
                forall|k: int| 0 <= k < BOARD_SIZE ==> (#[trigger] lines[k]).len() == BOARD_SIZE,
                forall|k: usize, m: usize|
                    k < BOARD_SIZE && m < BOARD_SIZE ==> call_requires(get_value, (k, m)),
                forall|k: usize, m: usize, c: char|
                    k < BOARD_SIZE && m < BOARD_SIZE && call_ensures(get_value, (k, m), c) ==> c
                        == lines[k as int][m as int],
                first_line(lines.take(k as int)) is None,
            decreases BOARD_SIZE - k,
        {
            let value = get_value(k, 0);
            let mut all = value != EMPTY;
            let mut m: usize = 1;
            while m < BOARD_SIZE
                invariant
                    1 <= m <= BOARD_SIZE,
                    k < BOARD_SIZE,
                    lines.len() == BOARD_SIZE,
                    lines[k as int].len() == BOARD_SIZE,
                    value == lines[k as int][0],
                    forall|k: usize, m: usize|
                        k < BOARD_SIZE && m < BOARD_SIZE ==> call_requires(get_value, (k, m)),
                    forall|k: usize, m: usize, c: char|
                        k < BOARD_SIZE && m < BOARD_SIZE && call_ensures(get_value, (k, m), c)
                            ==> c == lines[k as int][m as int],
                    all == (value != EMPTY && forall|j: int|
                        0 <= j < m ==> #[trigger] lines[k as int][j] == value),
                decreases BOARD_SIZE - m,
            {
                let other = get_value(k, m);
                all = all && other == value;
                m += 1;
            }
            proof {
                assert(lines.take(k + 1).drop_last() == lines.take(k as int));
                assert(lines.take(k + 1).last() == lines[k as int]);
            }
            if all {
                proof {
                    lemma_first_line_prefix(lines, k + 1, BOARD_SIZE as int);
                    assert(lines.take(BOARD_SIZE as int) == lines);
                }
                return Some(value);
            }
            k += 1;
        }
        proof {
            assert(lines.take(BOARD_SIZE as int) == lines);
        }
        None
    }

    /// Looks whether one mark owns a diagonal, where `get_value(k)` is cell
    /// `k` of the diagonal.
    fn check_diagonal<F: Fn(usize) -> char>(
        &self,
        get_value: F,
        Ghost(line): Ghost<Seq<char>>,
    ) -> (winner: Option<char>)
        requires
            line.len() == BOARD_SIZE,
            forall|k: usize| k < BOARD_SIZE ==> call_requires(get_value, (k,)),
            forall|k: usize, c: char|
                k < BOARD_SIZE && call_ensures(get_value, (k,), c) ==> c == line[k as int],
        ensures
            winner == line_mark(line),
    {
        let value = get_value(0);
        let mut all = value != EMPTY;
        let mut k: usize = 1;
        while k < BOARD_SIZE
            invariant
                1 <= k <= BOARD_SIZE,
                line.len() == BOARD_SIZE,
                value == line[0],
                forall|k: usize| k < BOARD_SIZE ==> call_requires(get_value, (k,)),
                forall|k: usize, c: char|
                    k < BOARD_SIZE && call_ensures(get_value, (k,), c) ==> c == line[k as int],
                all == (value != EMPTY && forall|j: int|
                    0 <= j < k ==> #[trigger] line[j] == value),
            decreases BOARD_SIZE - k,
        {
            let other = get_value(k);
            all = all && other == value;
            k += 1;
        }
        if all {
            Some(value)
        } else {
            None
        }
    }

    /// The mark that has won, if any: see [`Board::winner`].
    pub fn check_win(&self) -> (winner: Option<char>)
        ensures
            winner == self.winner(),
    {
        let get_horizontal = |k: usize, m: usize| -> (c: char)
            requires
                k < BOARD_SIZE,
                m < BOARD_SIZE,
            ensures
                c == self.at(k as int, m as int),
            { self.state[k][m] };
        let get_vertical = |k: usize, m: usize| -> (c: char)
            requires
                k < BOARD_SIZE,
                m < BOARD_SIZE,
            ensures
                c == self.at(m as int, k as int),
            { self.state[m][k] };
        let ghost rows = Seq::new(BOARD_SIZE as nat, |k: int| self.row(k));
        let ghost columns = Seq::new(BOARD_SIZE as nat, |k: int| self.column(k));
        match self.check_straight(get_horizontal, Ghost(rows)) {
            Some(value) => {
                return Some(value);
            },
            None => {},
        }
        match self.check_straight(get_vertical, Ghost(columns)) {
            Some(value) => {
                return Some(value);
            },
            None => {},
        }
        let get_main = |k: usize| -> (c: char)
            requires
                k < BOARD_SIZE,
            ensures
                c == self.at(k as int, k as int),
            { self.state[k][k] };
        let get_anti = |k: usize| -> (c: char)
            requires
                k < BOARD_SIZE,
            ensures
                c == self.at(k as int, BOARD_SIZE - k - 1),
            { self.state[k][BOARD_SIZE - k - 1] };
        match self.check_diagonal(get_main, Ghost(self.diagonal())) {
            Some(value) => {
                return Some(value);
            },
            None => {},
        }
        match self.check_diagonal(get_anti, Ghost(self.antidiagonal())) {
            Some(value) => {
                return Some(value);
            },
            None => {},
        }
        None
    }
}

/// The first owned line is one of the lines, and if no line is first then
/// none is owned.
pub proof fn lemma_first_line_is_a_line(lines: Seq<Seq<char>>)
    ensures
        match first_line(lines) {
            Some(mark) => exists|k: int|
                0 <= k < lines.len() && line_mark(#[trigger] lines[k]) == Some(mark),
            None => forall|k: int| 0 <= k < lines.len() ==> line_mark(#[trigger] lines[k]) is None,
        },
    decreases lines.len(),
{
    if lines.len() > 0 {
        lemma_first_line_is_a_line(lines.drop_last());
        let front = lines.drop_last();
        match first_line(front) {
            Some(mark) => {
                let k = choose|k: int|
                    0 <= k < front.len() && line_mark(#[trigger] front[k]) == Some(mark);
                assert(lines[k] == front[k]);
            },
            None => {
                if line_mark(lines.last()) is Some {
                    assert(lines[lines.len() - 1] == lines.last());
                } else {
                    assert forall|k: int| 0 <= k < lines.len() implies line_mark(
                        #[trigger] lines[k],
                    ) is None by {
                        if k < front.len() {
                            assert(lines[k] == front[k]);
                        }
                    }
                }
            },
        }
    }
}

impl Board {
    /// Whether every cell of row `k` holds `mark`.
    pub open spec fn fills_row(self, k: int, mark: char) -> bool {
        forall|m: int| 0 <= m < BOARD_SIZE ==> #[trigger] self.at(k, m) == mark
    }

    /// Whether every cell of column `k` holds `mark`.
    pub open spec fn fills_column(self, k: int, mark: char) -> bool {
        forall|m: int| 0 <= m < BOARD_SIZE ==> #[trigger] self.at(m, k) == mark
    }

    /// Whether `mark` fills a whole row, a whole column or a whole diagonal.
    pub open spec fn fills_line(self, mark: char) -> bool {
        ||| exists|k: int| 0 <= k < BOARD_SIZE && #[trigger] self.fills_row(k, mark)
        ||| exists|k: int| 0 <= k < BOARD_SIZE && #[trigger] self.fills_column(k, mark)
        ||| forall|k: int| 0 <= k < BOARD_SIZE ==> #[trigger] self.at(k, k) == mark
        ||| forall|k: int| 0 <= k < BOARD_SIZE ==> #[trigger] self.at(k, BOARD_SIZE - k - 1) == mark
    }
}

/// Somebody has won exactly if some mark fills a whole row, column or
/// diagonal, and the winner is such a mark.
pub proof fn lemma_winner_fills_line(board: Board)
    ensures
        board.winner() matches Some(mark) ==> mark != EMPTY && board.fills_line(mark),
        board.winner() is None ==> forall|mark: char| mark != EMPTY ==> !board.fills_line(mark),
{
    let rows = Seq::new(BOARD_SIZE as nat, |k: int| board.row(k));
    let columns = Seq::new(BOARD_SIZE as nat, |k: int| board.column(k));
    lemma_first_line_is_a_line(rows);
    lemma_first_line_is_a_line(columns);
    match board.winner() {
        Some(mark) => {
            if first_line(rows) is Some {
                let k = choose|k: int|
                    0 <= k < rows.len() && line_mark(#[trigger] rows[k]) == Some(mark);
                assert forall|m: int| 0 <= m < BOARD_SIZE implies #[trigger] board.at(k, m)
                    == mark by {
                    assert(board.row(k)[m] == board.at(k, m));
                }
                assert(board.row(k)[0] == board.at(k, 0));
                assert(board.fills_row(k, mark));
            } else if first_line(columns) is Some {
                let k = choose|k: int|
                    0 <= k < columns.len() && line_mark(#[trigger] columns[k]) == Some(mark);
                assert forall|m: int| 0 <= m < BOARD_SIZE implies #[trigger] board.at(m, k)
                    == mark by {
                    assert(board.column(k)[m] == board.at(m, k));
                }
                assert(board.column(k)[0] == board.at(0, k));
                assert(board.fills_column(k, mark));
            } else if line_mark(board.diagonal()) is Some {
                assert forall|k: int| 0 <= k < BOARD_SIZE implies #[trigger] board.at(k, k)
                    == mark by {
                    assert(board.diagonal()[k] == board.at(k, k));
                }
                assert(board.diagonal()[0] == board.at(0, 0));
            } else {
                assert forall|k: int| 0 <= k < BOARD_SIZE implies #[trigger] board.at(
                    k,
                    BOARD_SIZE - k - 1,
                ) == mark by {
                    assert(board.antidiagonal()[k] == board.at(k, BOARD_SIZE - k - 1));
                }
                assert(board.antidiagonal()[0] == board.at(0, BOARD_SIZE - 1));
            }
        },
        None => {
            assert forall|mark: char| mark != EMPTY implies !board.fills_line(mark) by {
                if board.fills_line(mark) {
                    if exists|k: int| 0 <= k < BOARD_SIZE && #[trigger] board.fills_row(k, mark) {
                        let k = choose|k: int|
                            0 <= k < BOARD_SIZE && #[trigger] board.fills_row(k, mark);
                        assert(board.at(k, 0) == mark);
                        assert(rows[k] == board.row(k));
                        assert(line_mark(board.row(k)) == Some(mark));
                    } else if exists|k: int|
                        0 <= k < BOARD_SIZE && #[trigger] board.fills_column(k, mark) {
                        let k = choose|k: int|
                            0 <= k < BOARD_SIZE && #[trigger] board.fills_column(k, mark);
                        assert(board.at(0, k) == mark);
                        assert(columns[k] == board.column(k));
                        assert(line_mark(board.column(k)) == Some(mark));
                    } else if forall|k: int|
                        0 <= k < BOARD_SIZE ==> #[trigger] board.at(k, k) == mark {
                        assert(board.at(0, 0) == mark);
                        assert(line_mark(board.diagonal()) == Some(mark));
                    } else {
                        assert(board.at(0, BOARD_SIZE - 0 - 1) == mark);
                        assert(line_mark(board.antidiagonal()) == Some(mark));
                    }
                }
            }
        },
    }
}

/// `count` times the piece `---+` of the rule between two rows.
pub open spec fn dashes(count: int) -> Seq<char>
    decreases count,
{
    if count <= 0 {
        Seq::empty()
    } else {
        dashes(count - 1) + seq!['-', '-', '-', '+']
    }
}

/// The rule between two rows: one piece per column, with a line break in
/// place of the last `+`.
pub open spec fn break_text() -> Seq<char> {
    dashes(BOARD_SIZE as int).drop_last().push('\n')
}

impl Board {
    /// The first `count` cells of row `i` as text: each cell between two
    /// blanks and followed by a bar.
    pub open spec fn cells_text(self, i: int, count: int) -> Seq<char>
        decreases count,
    {
        if count <= 0 {
            Seq::empty()
        } else {
            self.cells_text(i, count - 1) + seq![' ', self.at(i, count - 1), ' ', '|']
        }
    }

    /// Row `i` as text: its cells, with a line break in place of the last
    /// bar.
    pub open spec fn line_text(self, i: int) -> Seq<char> {
        self.cells_text(i, BOARD_SIZE as int).drop_last().push('\n')
    }

    /// The first `count` rows as text, each followed by a rule.
    pub open spec fn rows_text(self, count: int) -> Seq<char>
        decreases count,
    {
        if count <= 0 {
            Seq::empty()
        } else {
            self.rows_text(count - 1) + self.line_text(count - 1) + break_text()
        }
    }

    /// The picture of the board: a line break, then the rows from the top
    /// with a rule between each row and the next.
    pub open spec fn board_text(self) -> Seq<char> {
        seq!['\n'] + self.rows_text(BOARD_SIZE - 1) + self.line_text(BOARD_SIZE - 1)
    }

    /// Appends row `i` to `text`.
    pub fn draw_line(&self, text: &mut String, i: usize)
        requires
            i < BOARD_SIZE,
        ensures
            final(text)@ == old(text)@ + self.line_text(i as int),
    {
        let mut j: usize = 0;
        while j < BOARD_SIZE
            invariant
                j <= BOARD_SIZE,
                i < BOARD_SIZE,
                text@ == old(text)@ + self.cells_text(i as int, j as int),
            decreases BOARD_SIZE - j,
        {
            text.push(' ');
            text.push(self.state[i][j]);
            text.push(' ');
            text.push('|');
            j += 1;
            assert(text@ == old(text)@ + self.cells_text(i as int, j as int));
        }
        text.pop();
        text.push('\n');
        proof {
            let cells = self.cells_text(i as int, BOARD_SIZE as int);
            assert(cells.len() > 0);
            assert((old(text)@ + cells).drop_last() == old(text)@ + cells.drop_last());
            assert(text@ == old(text)@ + self.line_text(i as int));
        }
    }

    /// Appends the rule between two rows to `text`.
    pub fn draw_break(&self, text: &mut String)
        ensures
            final(text)@ == old(text)@ + break_text(),
    {
        let mut j: usize = 0;
        while j < BOARD_SIZE
            invariant
                j <= BOARD_SIZE,
                text@ == old(text)@ + dashes(j as int),
            decreases BOARD_SIZE - j,
        {
            proof {
                reveal_strlit("---+");
                assert("---+"@ == seq!['-', '-', '-', '+']);
            }
            text.push_str("---+");
            j += 1;
            assert(text@ == old(text)@ + dashes(j as int));
        }
        text.pop();
        text.push('\n');
        proof {
            let rule = dashes(BOARD_SIZE as int);
            assert(rule.len() > 0);
            assert((old(text)@ + rule).drop_last() == old(text)@ + rule.drop_last());
            assert(text@ == old(text)@ + break_text());
        }
    }

    /// The picture of the board.
    pub fn draw_board(&self) -> (text: String)
        ensures
            text@ == self.board_text(),
    {
        let mut text = String::new();
        text.push('\n');
        let mut i: usize = 0;
        while i < BOARD_SIZE - 1
            invariant
                i <= BOARD_SIZE - 1,
                text@ == seq!['\n'] + self.rows_text(i as int),
            decreases BOARD_SIZE - 1 - i,
        {
            self.draw_line(&mut text, i);
            self.draw_break(&mut text);
            i += 1;
            assert(text@ == seq!['\n'] + self.rows_text(i as int));
        }
        self.draw_line(&mut text, i);
        text
    }
}

/// The picture of a row and of the rule, character by character.
pub proof fn lemma_picture(board: Board, i: int)
    ensures
        board.line_text(i) == seq![
            ' ',
            board.at(i, 0),
            ' ',
            '|',
            ' ',
            board.at(i, 1),
            ' ',
            '|',
            ' ',
            board.at(i, 2),
            ' ',
            '\n',
        ],
        break_text() == seq!['-', '-', '-', '+', '-', '-', '-', '+', '-', '-', '-', '\n'],
        board.board_text() == seq!['\n'] + board.line_text(0) + break_text() + board.line_text(1)
            + break_text() + board.line_text(2),
{
    reveal_with_fuel(Board::cells_text, 4);
    reveal_with_fuel(dashes, 4);
    reveal_with_fuel(Board::rows_text, 3);
    assert(board.line_text(i) =~= seq![
        ' ',
        board.at(i, 0),
        ' ',
        '|',
        ' ',
        board.at(i, 1),
        ' ',
        '|',
        ' ',
        board.at(i, 2),
        ' ',
        '\n',
    ]);
    assert(break_text() =~= seq!['-', '-', '-', '+', '-', '-', '-', '+', '-', '-', '-', '\n']);
    assert(board.board_text() =~= seq!['\n'] + board.line_text(0) + break_text() + board.line_text(
        1,
    ) + break_text() + board.line_text(2));
}

/// How often a cell is drawn at random before the first unclaimed cell is
/// taken instead.
pub const RANDOM_TRIES: usize = 64;

impl Board {
    /// Whether `after` is this board with `player`'s mark put into one cell
    /// that was unclaimed, and every other cell as it was.
    pub open spec fn claimed_one(self, player: Player, after: Board) -> bool {
        exists|row: int, column: int|
            self.free(row, column) && #[trigger] self.marked(row, column, player.spec_mark(), after)
    }

    /// How the game stands for the player `me`: won by whoever owns a line,
    /// drawn if no line is owned and no cell is left, open otherwise.
    pub open spec fn standing(self, me: Player) -> Verdict {
        match self.winner() {
            Some(mark) => if mark == me.spec_mark() {
                Verdict::LocalWins
            } else {
                Verdict::RemoteWins
            },
            None => if self.vacancies() == 0 {
                Verdict::Draw
            } else {
                Verdict::Open
            },
        }
    }

    /// How the game stands for the player `me`.
    pub fn verdict(&self, me: Player) -> (verdict: Verdict)
        ensures
            verdict == self.standing(me),
    {
        match self.check_win() {
            Some(mark) => if mark == me.mark() {
                Verdict::LocalWins
            } else {
                Verdict::RemoteWins
            },
            None => if self.slots() == 0 {
                Verdict::Draw
            } else {
                Verdict::Open
            },
        }
    }

    /// Claims for `player` the cell that the numbers `a` and `b` point at,
    /// row `a` and column `b` counted round the board, if it is unclaimed.
    pub fn try_random_move(&mut self, a: usize, b: usize, player: Player) -> (placed: bool)
        ensures
            placed == old(self).free((a % BOARD_SIZE) as int, (b % BOARD_SIZE) as int),
            placed ==> old(self).marked(
                (a % BOARD_SIZE) as int,
                (b % BOARD_SIZE) as int,
                player.spec_mark(),
                *final(self),
            ) && final(self).vacancies() == old(self).vacancies() - 1,
            !placed ==> *final(self) == *old(self),
    {
        self.place(a % BOARD_SIZE, b % BOARD_SIZE, player)
    }

    /// Claims the first unclaimed cell, by rows from the top, for `player`.
    fn take_first_free(&mut self, player: Player) -> (placed: bool)
        ensures
            placed == (old(self).vacancies() > 0),
            placed ==> old(self).claimed_one(player, *final(self)) && final(self).vacancies()
                == old(self).vacancies() - 1,
            !placed ==> *final(self) == *old(self),
    {
        let mut row: usize = 0;
        while row < BOARD_SIZE
            invariant
                row <= BOARD_SIZE,
                *self == *old(self),
                forall|i: int, j: int|
                    0 <= i < row && 0 <= j < BOARD_SIZE ==> #[trigger] self.at(i, j) != EMPTY,
            decreases BOARD_SIZE - row,
        {
            let mut column: usize = 0;
            while column < BOARD_SIZE
                invariant
                    column <= BOARD_SIZE,
                    row < BOARD_SIZE,
                    *self == *old(self),
                    forall|i: int, j: int|
                        0 <= i < row && 0 <= j < BOARD_SIZE ==> #[trigger] self.at(i, j) != EMPTY,
                    forall|j: int| 0 <= j < column ==> #[trigger] self.at(row as int, j) != EMPTY,
                decreases BOARD_SIZE - column,
            {
                if self.place(row, column, player) {
                    return true;
                }
                column += 1;
            }
            row += 1;
        }
        proof {
            assert(self.at(0, 0) != EMPTY && self.at(0, 1) != EMPTY && self.at(0, 2) != EMPTY);
            assert(self.at(1, 0) != EMPTY && self.at(1, 1) != EMPTY && self.at(1, 2) != EMPTY);
            assert(self.at(2, 0) != EMPTY && self.at(2, 1) != EMPTY && self.at(2, 2) != EMPTY);
        }
        false
    }

    /// Claims an unclaimed cell for the second player, if one is left.
    ///
    /// Cells are drawn at random until one is found unclaimed; should that
    /// fail `RANDOM_TRIES` times in a row, the first unclaimed cell is taken.
    pub fn random_move(&mut self) -> (placed: bool)
        ensures
            placed == (old(self).vacancies() > 0),
            placed ==> old(self).claimed_one(Player::O, *final(self)) && final(self).vacancies()
                == old(self).vacancies() - 1,
            !placed ==> *final(self) == *old(self),
    {
        if self.slots() > 0 {
            let mut tries: usize = 0;
            while tries < RANDOM_TRIES
                invariant
                    tries <= RANDOM_TRIES,
                    *self == *old(self),
                decreases RANDOM_TRIES - tries,
            {
                let x = random_number();
                let y = random_number();
                if self.try_random_move(x, y, Player::O) {
                    return true;
                }
                tries += 1;
            }
        }
        self.take_first_free(Player::O)
    }

    /// Whether `middle` and `after` are this board in and after one round of
    /// a game against the machine, in which the first player names the cell
    /// in `row` and `column`.
    ///
    /// `middle` is this board with that cell claimed by the first player, if
    /// it was unclaimed, and this board itself if not.  `after` is `middle`
    /// with one more cell claimed by the second player if the game stood
    /// open at `middle`, and `middle` itself if not.
    pub open spec fn round(self, row: int, column: int, middle: Board, after: Board) -> bool {
        &&& if self.free(row, column) {
            self.marked(row, column, Player::X.spec_mark(), middle) && middle.vacancies()
                == self.vacancies() - 1
        } else {
            middle == self
        }
        &&& if middle.standing(Player::X) is Open {
            middle.claimed_one(Player::O, after) && after.vacancies() == middle.vacancies() - 1
        } else {
            after == middle
        }
    }

    /// One round of a game against the machine: the first player claims the
    /// cell in `row` and `column`; if that does not end the game, the second
    /// player claims an unclaimed cell drawn at random.  The result says how
    /// the game stands for the first player after the round.
    ///
    /// A cell that is claimed already, or that does not exist, is not claimed
    /// again: the round then consists of the second player's move alone.
    pub fn singleplayer(&mut self, row: usize, column: usize) -> (verdict: Verdict)
        ensures
            verdict == final(self).standing(Player::X),
            exists|middle: Board| #[trigger]
                old(self).round(row as int, column as int, middle, *final(self)),
    {
        self.place(row, column, Player::X);
        let ghost middle = *self;
        let verdict = self.verdict(Player::X);
        let verdict = match verdict {
            Verdict::Open => {
                self.random_move();
                self.verdict(Player::X)
            },
            _ => verdict,
        };
        assert(old(self).round(row as int, column as int, middle, *self));
        verdict
    }
}

impl Board {
    /// Whether this board and `other` hold the same in every cell.
    pub open spec fn agrees(self, other: Board) -> bool {
        forall|i: int, j: int|
            0 <= i < BOARD_SIZE && 0 <= j < BOARD_SIZE ==> #[trigger] self.at(i, j) == other.at(
                i,
                j,
            )
    }
}

/// Boards that agree stay in agreement when the same cell is marked for the
/// same player on both: they hold the same in every cell again, the marked
/// cell holds the mark, as many cells are left on the one as on the other,
/// and they name the same winner.
pub proof fn lemma_same_move_same_board(
    first: Board,
    second: Board,
    row: int,
    column: int,
    mark: char,
    first_after: Board,
    second_after: Board,
)
    requires
        first.agrees(second),
        0 <= row < BOARD_SIZE,
        0 <= column < BOARD_SIZE,
        first.marked(row, column, mark, first_after),
        second.marked(row, column, mark, second_after),
    ensures
        first_after.agrees(second_after),
        first_after.at(row, column) == mark,
        second_after.at(row, column) == mark,
        first_after.vacancies() == second_after.vacancies(),
        first_after.winner() == second_after.winner(),
{
    assert(first_after.agrees(second_after));
    lemma_agreeing_boards(first_after, second_after);
}

/// Boards that agree have as many unclaimed cells and name the same winner.
pub proof fn lemma_agreeing_boards(first: Board, second: Board)
    requires
        first.agrees(second),
    ensures
        first.vacancies() == second.vacancies(),
        first.winner() == second.winner(),
{
    assert forall|k: int| 0 <= k < BOARD_SIZE implies first.row(k) == second.row(k)
        && first.column(k) == second.column(k) by {
        assert(first.row(k) =~= second.row(k));
        assert(first.column(k) =~= second.column(k));
    }
    assert(Seq::new(BOARD_SIZE as nat, |k: int| first.row(k)) =~= Seq::new(
        BOARD_SIZE as nat,
        |k: int| second.row(k),
    ));
    assert(Seq::new(BOARD_SIZE as nat, |k: int| first.column(k)) =~= Seq::new(
        BOARD_SIZE as nat,
        |k: int| second.column(k),
    ));
    assert(first.diagonal() =~= second.diagonal());
    assert(first.antidiagonal() =~= second.antidiagonal());
}

} // verus!
