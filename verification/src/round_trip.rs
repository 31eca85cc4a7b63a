//! What is written to a save is read back as it was: the proofs, from a
//! single line up to the three files of a game.

use crate::entity::{
    entities_of, is_block_line, lemma_entity_lines, lemma_entity_round_trip, read_all, Entity,
    Instance,
};
use crate::entity_map::{keys_ascend, keys_below};
use crate::environment::Position;
use crate::game::{
    metadata_step, read_metadata, settled, GameState, Metadata, RotfDifficulty, RotfGame,
};
use crate::save::{
    after_field, after_marker, block_lines, blocks_lines, new_environment_state,
    new_player_state, read_lines, step, Reader, SaveFile, SaveState,
};
use crate::text::{
    decimal, field_line, is_key, is_plain, is_whitespace, lemma_field_line,
    lemma_field_line_plain, lemma_lines_unlines, lemma_no_field, lemma_parse_decimal,
    lemma_trim_clean, lines, spec_parse_u64, trim, unlines,
};
use vstd::prelude::*;

verus! {

/// The two kinds of block.
#[derive(Clone, Copy, Debug, PartialEq, Eq, Structural)]
pub enum Block {
    UNIT,
    ITEM,
}

/// The key of the line that says under which key a block stands.
pub open spec fn counter_key(kind: Block) -> Seq<char> {
    match kind {
        Block::UNIT => "next_unit_key"@,
        Block::ITEM => "next_item_key"@,
    }
}

/// The marker that begins a block.
pub open spec fn begin_marker(kind: Block) -> Seq<char> {
    match kind {
        Block::UNIT => "%%% BEGIN UNIT"@,
        Block::ITEM => "%%% BEGIN ITEM"@,
    }
}

/// The marker that ends a block.
pub open spec fn end_marker(kind: Block) -> Seq<char> {
    match kind {
        Block::UNIT => "%%% END UNIT"@,
        Block::ITEM => "%%% END ITEM"@,
    }
}

/// What has been read of the blocks of the given kind.
pub open spec fn reader(s: SaveState, kind: Block) -> Reader {
    match kind {
        Block::UNIT => s.units,
        Block::ITEM => s.items,
    }
}

/// The state with `r` in place of what has been read of the blocks of the
/// given kind.
pub open spec fn with_reader(s: SaveState, kind: Block, r: Reader) -> SaveState {
    match kind {
        Block::UNIT => SaveState { units: r, ..s },
        Block::ITEM => SaveState { items: r, ..s },
    }
}

/// Whether the file holds blocks of the given kind.
pub open spec fn holds_blocks(file: SaveFile, kind: Block) -> bool {
    kind == Block::ITEM || file == SaveFile::ENVIRONMENT
}

/// The limit to the blocks of the given kind that the file takes in: the
/// capacity of the inventory for the items of the player, else none.
pub open spec fn limit(file: SaveFile, s: SaveState, kind: Block) -> Option<usize> {
    if kind == Block::ITEM && file == SaveFile::PLAYER {
        Some(s.capacity)
    } else {
        None
    }
}

/// Whether no block is open.
pub open spec fn idle(s: SaveState) -> bool {
    !s.units.open && !s.items.open
}

/// What holds of the markers: none holds a colon, each is its own trim and
/// starts with a percent sign, and no two are the same.
pub proof fn lemma_markers()
    ensures
        forall|kind: Block|
            {
                &&& !(#[trigger] begin_marker(kind)).contains(':')
                &&& trim(begin_marker(kind)) == begin_marker(kind)
                &&& begin_marker(kind)[0] == '%'
                &&& is_plain(begin_marker(kind))
                &&& begin_marker(kind).len() == 14
            },
        forall|kind: Block|
            {
                &&& !(#[trigger] end_marker(kind)).contains(':')
                &&& trim(end_marker(kind)) == end_marker(kind)
                &&& end_marker(kind)[0] == '%'
                &&& is_plain(end_marker(kind))
                &&& end_marker(kind).len() == 12
            },
        begin_marker(Block::UNIT) != begin_marker(Block::ITEM),
        end_marker(Block::UNIT) != end_marker(Block::ITEM),
        ""@.len() == 0,
{
    reveal_strlit("%%% BEGIN UNIT");
    reveal_strlit("%%% BEGIN ITEM");
    reveal_strlit("%%% END UNIT");
    reveal_strlit("%%% END ITEM");
    reveal_strlit("");
    assert("%%% BEGIN UNIT"@[10] == 'U');
    assert("%%% BEGIN ITEM"@[10] == 'I');
    assert("%%% END UNIT"@[8] == 'U');
    assert("%%% END ITEM"@[8] == 'I');
    assert forall|kind: Block|
        {
            &&& !(#[trigger] begin_marker(kind)).contains(':')
            &&& trim(begin_marker(kind)) == begin_marker(kind)
            &&& begin_marker(kind)[0] == '%'
            &&& is_plain(begin_marker(kind))
            &&& begin_marker(kind).len() == 14
        } by {
        lemma_trim_clean(begin_marker(kind));
    }
    assert forall|kind: Block|
        {
            &&& !(#[trigger] end_marker(kind)).contains(':')
            &&& trim(end_marker(kind)) == end_marker(kind)
            &&& end_marker(kind)[0] == '%'
            &&& is_plain(end_marker(kind))
            &&& end_marker(kind).len() == 12
        } by {
        lemma_trim_clean(end_marker(kind));
    }
}

/// What holds of the keys of the lines outside the blocks: each can be
/// told from what stands around it.
pub proof fn lemma_file_keys()
    ensures
        is_key("next_unit_key"@),
        is_key("next_item_key"@),
        is_key("time_passed"@),
        is_key("level"@),
        is_key("view_distance"@),
        is_key("capacity"@),
        "next_unit_key"@.len() == 13,
        "next_item_key"@.len() == 13,
        "time_passed"@.len() == 11,
        "level"@.len() == 5,
        "view_distance"@.len() == 13,
        "capacity"@.len() == 8,
        "next_unit_key"@[5] == 'u',
        "next_item_key"@[5] == 'i',
        "view_distance"@[0] == 'v',
        "next_unit_key"@[0] == 'n',
        "next_item_key"@[0] == 'n',
        "time_passed"@[0] == 't',
        "level"@[0] == 'l',
        "capacity"@[0] == 'c',
        !"next_unit_key"@.contains('\n'),
        !"next_item_key"@.contains('\n'),
        !"time_passed"@.contains('\n'),
        !"level"@.contains('\n'),
        !"view_distance"@.contains('\n'),
        !"capacity"@.contains('\n'),
        ""@.len() == 0,
{
    reveal_strlit("next_unit_key");
    reveal_strlit("next_item_key");
    reveal_strlit("time_passed");
    reveal_strlit("level");
    reveal_strlit("view_distance");
    reveal_strlit("capacity");
    reveal_strlit("");
}

/// An empty line leaves what has been read as it is.
pub proof fn lemma_step_empty(file: SaveFile, s: SaveState)
    ensures
        step(file, s, ""@) == s,
{
    lemma_markers();
    assert(begin_marker(Block::UNIT).len() == 14);
    assert(begin_marker(Block::ITEM).len() == 14);
    assert(end_marker(Block::UNIT).len() == 12);
    assert(end_marker(Block::ITEM).len() == 12);
    assert(trim(""@) == ""@);
    lemma_no_field(""@);
}

/// A begin marker opens a block of its kind.
pub proof fn lemma_step_begin(file: SaveFile, s: SaveState, kind: Block)
    requires
        holds_blocks(file, kind),
    ensures
        step(file, s, begin_marker(kind)) == with_reader(s, kind, reader(s, kind).begin()),
{
    lemma_markers();
    assert(begin_marker(Block::UNIT).len() == 14);
    assert(begin_marker(Block::ITEM).len() == 14);
    assert(end_marker(Block::UNIT).len() == 12);
    assert(end_marker(Block::ITEM).len() == 12);
    assert(trim(begin_marker(kind)) == begin_marker(kind));
    lemma_no_field(begin_marker(kind));
}

/// An end marker closes the block of its kind and takes it in.
pub proof fn lemma_step_end(file: SaveFile, s: SaveState, kind: Block)
    requires
        holds_blocks(file, kind),
    ensures
        step(file, s, end_marker(kind)) == with_reader(
            s,
            kind,
            reader(s, kind).end(limit(file, s, kind)),
        ),
{
    lemma_markers();
    assert(begin_marker(Block::UNIT).len() == 14);
    assert(begin_marker(Block::ITEM).len() == 14);
    assert(end_marker(Block::UNIT).len() == 12);
    assert(end_marker(Block::ITEM).len() == 12);
    assert(trim(end_marker(kind)) == end_marker(kind));
    lemma_no_field(end_marker(kind));
}

/// A line that starts as no marker does is none.
pub proof fn lemma_no_marker(file: SaveFile, s: SaveState, l: Seq<char>)
    requires
        trim(l).len() > 0,
        trim(l)[0] != '%',
    ensures
        after_marker(file, s, l) == s,
{
    lemma_markers();
    assert(begin_marker(Block::UNIT)[0] == '%');
    assert(begin_marker(Block::ITEM)[0] == '%');
    assert(end_marker(Block::UNIT)[0] == '%');
    assert(end_marker(Block::ITEM)[0] == '%');
}

/// A line inside an open block goes to that block.
pub proof fn lemma_step_inside(file: SaveFile, s: SaveState, kind: Block, l: Seq<char>)
    requires
        is_block_line(l),
        reader(s, kind).open,
        kind == Block::ITEM ==> !s.units.open,
    ensures
        step(file, s, l) == with_reader(s, kind, reader(s, kind).read(l)),
{
    lemma_no_marker(file, s, l);
}

/// The line that says under which key the next block stands moves the
/// counter of its kind up to that key.
pub proof fn lemma_step_counter(file: SaveFile, s: SaveState, kind: Block, key: u64)
    requires
        holds_blocks(file, kind),
        idle(s),
    ensures
        step(file, s, field_line(""@, counter_key(kind), decimal(key as nat))) == with_reader(
            s,
            kind,
            Reader {
                next_key: if key > reader(s, kind).next_key {
                    key
                } else {
                    reader(s, kind).next_key
                },
                ..reader(s, kind)
            },
        ),
        is_plain(field_line(""@, counter_key(kind), decimal(key as nat))),
{
    lemma_file_keys();
    lemma_parse_decimal(key as nat);
    let l = field_line(""@, counter_key(kind), decimal(key as nat));
    lemma_field_line(""@, counter_key(kind), decimal(key as nat));
    lemma_field_line_plain(""@, counter_key(kind), decimal(key as nat));
    lemma_no_marker(file, s, l);
    assert(spec_parse_u64(decimal(key as nat)) == Some(key));
    assert(reader(s, kind).raise(decimal(key as nat)) == (Reader {
        next_key: if key > reader(s, kind).next_key {
            key
        } else {
            reader(s, kind).next_key
        },
        ..reader(s, kind)
    }));
    assert(after_field(file, s, counter_key(kind), decimal(key as nat)) == with_reader(
        s,
        kind,
        reader(s, kind).raise(decimal(key as nat)),
    ));
}

/// Reading one more line is one more step.
pub proof fn lemma_read_push(file: SaveFile, s: SaveState, ls: Seq<Seq<char>>, l: Seq<char>)
    ensures
        read_lines(file, s, ls.push(l)) == step(file, read_lines(file, s, ls), l),
{
    assert(ls.push(l).drop_last() == ls);
}

/// Reading lines and then more lines is reading them all.
pub proof fn lemma_read_add(file: SaveFile, s: SaveState, a: Seq<Seq<char>>, b: Seq<Seq<char>>)
    ensures
        read_lines(file, s, a + b) == read_lines(file, read_lines(file, s, a), b),
    decreases b.len(),
{
    if b.len() == 0 {
        assert(a + b == a);
    } else {
        lemma_read_add(file, s, a, b.drop_last());
        assert((a + b).drop_last() == a + b.drop_last());
    }
}

/// Lines inside an open block all go to that block.
pub proof fn lemma_read_inside(file: SaveFile, s: SaveState, kind: Block, ls: Seq<Seq<char>>)
    requires
        forall|i: int| 0 <= i < ls.len() ==> is_block_line(#[trigger] ls[i]),
        reader(s, kind).open,
        kind == Block::ITEM ==> !s.units.open,
    ensures
        read_lines(file, s, ls) == with_reader(
            s,
            kind,
            Reader { current: read_all(reader(s, kind).current, ls), ..reader(s, kind) },
        ),
    decreases ls.len(),
{
    if ls.len() == 0 {
        assert(with_reader(s, kind, reader(s, kind)) == s);
    } else {
        let head = ls.drop_last();
        assert forall|i: int| 0 <= i < head.len() implies is_block_line(#[trigger] head[i]) by {
            assert(head[i] == ls[i]);
        }
        lemma_read_inside(file, s, kind, head);
        let mid = read_lines(file, s, head);
        lemma_step_inside(file, mid, kind, ls.last());
    }
}

/// The state after one more block of the given kind has been taken in:
/// its instance stands under its key, and the counter one above it.
pub open spec fn with_block(s: SaveState, kind: Block, key: u64, e: Entity) -> SaveState {
    let r = reader(s, kind);
    with_reader(
        s,
        kind,
        Reader {
            entries: r.entries.push((key, e)),
            next_key: (key + 1) as u64,
            open: false,
            current: r.blank,
            ..r
        },
    )
}

/// The key and the begin marker of a block move the counter to the key
/// and open the block.
proof fn lemma_read_block_head(file: SaveFile, s: SaveState, kind: Block, key: u64)
    requires
        holds_blocks(file, kind),
        idle(s),
        reader(s, kind).next_key <= key,
    ensures
        read_lines(
            file,
            s,
            seq![field_line(""@, counter_key(kind), decimal(key as nat)), begin_marker(kind)],
        ) == with_reader(s, kind, Reader { next_key: key, open: true, ..reader(s, kind) }),
{
    let r = reader(s, kind);
    let counter = field_line(""@, counter_key(kind), decimal(key as nat));
    let head = seq![counter, begin_marker(kind)];
    lemma_step_counter(file, s, kind, key);
    let s1 = with_reader(s, kind, Reader { next_key: key, ..r });
    assert(step(file, s, counter) == s1);
    lemma_step_begin(file, s1, kind);
    let s2 = with_reader(s, kind, Reader { next_key: key, open: true, ..r });
    assert(with_reader(s1, kind, reader(s1, kind).begin()) == s2);
    let empty = Seq::<Seq<char>>::empty();
    assert(head == empty.push(counter).push(begin_marker(kind)));
    lemma_read_push(file, s, empty, counter);
    lemma_read_push(file, s, empty.push(counter), begin_marker(kind));
    assert(read_lines(file, s, empty) == s);
}

/// The end marker of a block and the empty line after it take the block
/// in, if there is room.
proof fn lemma_read_block_tail(file: SaveFile, s: SaveState, kind: Block)
    requires
        holds_blocks(file, kind),
        reader(s, kind).has_room(limit(file, s, kind)),
    ensures
        read_lines(file, s, seq![end_marker(kind), ""@]) == with_reader(
            s,
            kind,
            reader(s, kind).end(limit(file, s, kind)),
        ),
{
    lemma_step_end(file, s, kind);
    let s1 = with_reader(s, kind, reader(s, kind).end(limit(file, s, kind)));
    lemma_step_empty(file, s1);
    let empty = Seq::<Seq<char>>::empty();
    let tail = seq![end_marker(kind), ""@];
    assert(tail == empty.push(end_marker(kind)).push(""@));
    lemma_read_push(file, s, empty, end_marker(kind));
    lemma_read_push(file, s, empty.push(end_marker(kind)), ""@);
    assert(read_lines(file, s, empty) == s);
}

/// A block that is written is read back: from a state in which no block
/// is open, the lines of a block add its instance under its key, if the key
/// is not below the counter and there is room.
pub proof fn lemma_read_block(file: SaveFile, s: SaveState, kind: Block, key: u64, e: Entity)
    requires
        holds_blocks(file, kind),
        idle(s),
        reader(s, kind).next_key <= key < u64::MAX,
        limit(file, s, kind) matches Some(l) ==> reader(s, kind).entries.len() < l,
    ensures
        read_lines(
            file,
            s,
            block_lines(counter_key(kind), begin_marker(kind), end_marker(kind), key, e),
        ) == with_block(s, kind, key, e),
        idle(with_block(s, kind, key, e)),
{
    let r = reader(s, kind);
    let head = seq![field_line(""@, counter_key(kind), decimal(key as nat)), begin_marker(kind)];
    let tail = seq![end_marker(kind), ""@];
    lemma_read_block_head(file, s, kind, key);
    let s2 = with_reader(s, kind, Reader { next_key: key, open: true, ..r });
    lemma_entity_lines(e);
    lemma_read_inside(file, s2, kind, e.spec_lines());
    lemma_entity_round_trip(r.current, e);
    let s3 = with_reader(s, kind, Reader { next_key: key, open: true, current: e, ..r });
    assert(read_lines(file, s2, e.spec_lines()) == s3);
    assert(limit(file, s3, kind) == limit(file, s, kind));
    lemma_read_block_tail(file, s3, kind);
    assert(with_reader(s3, kind, reader(s3, kind).end(limit(file, s3, kind))) == with_block(
        s,
        kind,
        key,
        e,
    ));
    lemma_read_add(file, s, head, e.spec_lines());
    lemma_read_add(file, s, head + e.spec_lines(), tail);
}

/// Whether the entries can be written as blocks and read back on top of
/// what `r` has read: their keys ascend from the counter of `r` on, and
/// stay below the last key that there is.
pub open spec fn fits(r: Reader, entries: Seq<(u64, Entity)>) -> bool {
    &&& forall|i: int, j: int|
        0 <= i < j < entries.len() ==> (#[trigger] entries[i]).0 < (#[trigger] entries[j]).0
    &&& forall|i: int| 0 <= i < entries.len() ==> r.next_key <= (#[trigger] entries[i]).0 < u64::MAX
}

/// The state after the blocks of the given entries have been taken in.
pub open spec fn with_blocks(s: SaveState, kind: Block, entries: Seq<(u64, Entity)>) -> SaveState {
    let r = reader(s, kind);
    if entries.len() == 0 {
        s
    } else {
        with_reader(
            s,
            kind,
            Reader {
                entries: r.entries + entries,
                next_key: (entries.last().0 + 1) as u64,
                open: false,
                current: r.blank,
                ..r
            },
        )
    }
}

/// Blocks that are written are read back: from a state in which no block
/// is open, the lines of the blocks add their instances under their keys.
pub proof fn lemma_read_blocks(
    file: SaveFile,
    s: SaveState,
    kind: Block,
    entries: Seq<(u64, Entity)>,
)
    requires
        holds_blocks(file, kind),
        idle(s),
        fits(reader(s, kind), entries),
        limit(file, s, kind) matches Some(l) ==> reader(s, kind).entries.len() + entries.len()
            <= l,
    ensures
        read_lines(
            file,
            s,
            blocks_lines(counter_key(kind), begin_marker(kind), end_marker(kind), entries),
        ) == with_blocks(s, kind, entries),
        idle(with_blocks(s, kind, entries)),
    decreases entries.len(),
{
    if entries.len() > 0 {
        let r = reader(s, kind);
        let head = entries.drop_last();
        let (key, e) = entries.last();
        assert(fits(r, head)) by {
            assert forall|i: int| 0 <= i < head.len() implies r.next_key <= (#[trigger] head[i]).0
                < u64::MAX by {
                assert(head[i] == entries[i]);
            }
            assert forall|i: int, j: int| 0 <= i < j < head.len() implies (#[trigger] head[i]).0 < (
            #[trigger] head[j]).0 by {
                assert(head[i] == entries[i]);
                assert(head[j] == entries[j]);
            }
        }
        lemma_read_blocks(file, s, kind, head);
        let mid = with_blocks(s, kind, head);
        assert(entries[entries.len() - 1] == (key, e));
        if head.len() > 0 {
            assert(head.last() == entries[entries.len() - 2]);
            assert(head.last().0 < key);
        }
        assert(reader(mid, kind).next_key <= key);
        assert(limit(file, mid, kind) == limit(file, s, kind));
        lemma_read_block(file, mid, kind, key, e);
        lemma_read_add(
            file,
            s,
            blocks_lines(counter_key(kind), begin_marker(kind), end_marker(kind), head),
            block_lines(counter_key(kind), begin_marker(kind), end_marker(kind), key, e),
        );
        assert(reader(mid, kind).entries.push((key, e)) == r.entries + entries) by {
            if head.len() > 0 {
                assert((r.entries + head).push((key, e)) =~= r.entries + entries);
            } else {
                assert(r.entries.push((key, e)) =~= r.entries + entries);
            }
        }
    }
}

/// A line outside any block that gives a key its value is taken as that.
pub proof fn lemma_step_field(file: SaveFile, s: SaveState, key: Seq<char>, value: Seq<char>)
    requires
        idle(s),
        is_key(key),
        key[0] != '%',
        trim(value) == value,
    ensures
        step(file, s, field_line(""@, key, value)) == after_field(file, s, key, value),
{
    lemma_file_keys();
    lemma_field_line(""@, key, value);
    lemma_no_marker(file, s, field_line(""@, key, value));
}

/// Whether no line holds a line feed or ends with a carriage return.
pub open spec fn all_plain(ls: Seq<Seq<char>>) -> bool {
    forall|i: int|
        0 <= i < ls.len() ==> !(#[trigger] ls[i]).contains('\n') && (ls[i].len() == 0 || ls[i].last()
            != '\r')
}

/// The lines of blocks can be told apart again.
pub proof fn lemma_blocks_plain(kind: Block, entries: Seq<(u64, Entity)>)
    ensures
        all_plain(blocks_lines(counter_key(kind), begin_marker(kind), end_marker(kind), entries)),
    decreases entries.len(),
{
    if entries.len() > 0 {
        let head = blocks_lines(
            counter_key(kind),
            begin_marker(kind),
            end_marker(kind),
            entries.drop_last(),
        );
        let (key, e) = entries.last();
        let block = block_lines(counter_key(kind), begin_marker(kind), end_marker(kind), key, e);
        lemma_blocks_plain(kind, entries.drop_last());
        lemma_markers();
        lemma_file_keys();
        lemma_parse_decimal(key as nat);
        lemma_field_line_plain(""@, counter_key(kind), decimal(key as nat));
        lemma_entity_lines(e);
        assert(is_plain(begin_marker(kind)));
        assert(is_plain(end_marker(kind)));
        assert forall|i: int| 0 <= i < block.len() implies !(#[trigger] block[i]).contains('\n')
            && (block[i].len() == 0 || block[i].last() != '\r') by {
            if 2 <= i < 7 {
                assert(block[i] == e.spec_lines()[i - 2]);
                assert(is_block_line(e.spec_lines()[i - 2]));
            }
        }
        let all = head + block;
        assert forall|i: int| 0 <= i < all.len() implies !(#[trigger] all[i]).contains('\n') && (
        all[i].len() == 0 || all[i].last() != '\r') by {
            if i < head.len() {
                assert(all[i] == head[i]);
            } else {
                assert(all[i] == block[i - head.len()]);
            }
        }
    }
}

/// The lines of the blocks of the given entries and the line with the
/// counter after them.
pub open spec fn section_lines(kind: Block, entries: Seq<(u64, Entity)>, next: u64) -> Seq<
    Seq<char>,
> {
    blocks_lines(counter_key(kind), begin_marker(kind), end_marker(kind), entries).push(
        field_line(""@, counter_key(kind), decimal(next as nat)),
    )
}

/// The blocks of a collection and the line with its counter are read back
/// as the collection, where nothing of that kind has been read yet.
pub proof fn lemma_read_section(
    file: SaveFile,
    s: SaveState,
    kind: Block,
    entries: Seq<(u64, Entity)>,
    next: u64,
)
    requires
        holds_blocks(file, kind),
        idle(s),
        reader(s, kind).entries.len() == 0,
        reader(s, kind).next_key == 1,
        keys_ascend(entries),
        keys_below(entries, next),
        next >= 1,
        limit(file, s, kind) matches Some(l) ==> entries.len() <= l,
    ensures
        read_lines(file, s, section_lines(kind, entries, next)) == with_reader(
            s,
            kind,
            Reader {
                entries,
                next_key: next,
                current: if entries.len() > 0 {
                    reader(s, kind).blank
                } else {
                    reader(s, kind).current
                },
                ..reader(s, kind)
            },
        ),
        all_plain(section_lines(kind, entries, next)),
        is_plain(section_lines(kind, entries, next).last()),
{
    let r = reader(s, kind);
    let blocks = blocks_lines(counter_key(kind), begin_marker(kind), end_marker(kind), entries);
    let counter = field_line(""@, counter_key(kind), decimal(next as nat));
    assert(fits(r, entries));
    lemma_read_blocks(file, s, kind, entries);
    let mid = with_blocks(s, kind, entries);
    lemma_step_counter(file, mid, kind, next);
    lemma_read_push(file, s, blocks, counter);
    assert(r.entries + entries == entries);
    if entries.len() > 0 {
        assert(entries.last() == entries[entries.len() - 1]);
        assert(entries.last().0 < next);
    } else {
        assert(with_reader(s, kind, r) == s);
    }
    lemma_blocks_plain(kind, entries);
    let all = section_lines(kind, entries, next);
    assert forall|i: int| 0 <= i < all.len() implies !(#[trigger] all[i]).contains('\n') && (
    all[i].len() == 0 || all[i].last() != '\r') by {
        if i < blocks.len() {
            assert(all[i] == blocks[i]);
        }
    }
}

/// The lines of the file of an environment with the given time, units and
/// items.
pub open spec fn environment_lines(
    time: u8,
    units: Seq<(u64, Entity)>,
    next_unit: u64,
    items: Seq<(u64, Entity)>,
    next_item: u64,
) -> Seq<Seq<char>> {
    seq![field_line(""@, "time_passed"@, decimal(time as nat)), ""@] + section_lines(
        Block::UNIT,
        units,
        next_unit,
    ) + seq![""@] + section_lines(Block::ITEM, items, next_item)
}

/// The lines of the file of a player with the given level, view distance
/// and inventory.
pub open spec fn player_lines(
    level: u8,
    view_distance: Position,
    capacity: usize,
    items: Seq<(u64, Entity)>,
    next_item: u64,
) -> Seq<Seq<char>> {
    seq![
        field_line(""@, "level"@, decimal(level as nat)),
        field_line(""@, "view_distance"@, view_distance.spec_name()),
        ""@,
        field_line(""@, "capacity"@, decimal(capacity as nat)),
    ] + section_lines(Block::ITEM, items, next_item)
}

/// Lines that can be told apart, one group after the other, can be told
/// apart.
pub proof fn lemma_all_plain_add(a: Seq<Seq<char>>, b: Seq<Seq<char>>)
    requires
        all_plain(a),
        all_plain(b),
    ensures
        all_plain(a + b),
{
    let all = a + b;
    assert forall|i: int| 0 <= i < all.len() implies !(#[trigger] all[i]).contains('\n') && (
    all[i].len() == 0 || all[i].last() != '\r') by {
        if i < a.len() {
            assert(all[i] == a[i]);
        } else {
            assert(all[i] == b[i - a.len()]);
        }
    }
}

/// Lines that can be told apart, and the last of which is not empty, are
/// read back as they were written, after one empty line.
pub proof fn lemma_read_written(ls: Seq<Seq<char>>)
    requires
        all_plain(ls),
        ls.len() > 0,
        ls.last().len() > 0,
    ensures
        lines(unlines(ls)) == seq![""@] + ls,
{
    reveal_strlit("");
    assert(""@ == Seq::<char>::empty());
    lemma_lines_unlines(ls);
}

/// What comes before the units in the file of an environment is read
/// back: the time.
proof fn lemma_read_environment_head(time: u8)
    ensures
        read_lines(
            SaveFile::ENVIRONMENT,
            new_environment_state(),
            seq![""@, field_line(""@, "time_passed"@, decimal(time as nat)), ""@],
        ) == (SaveState { time_passed: time, ..new_environment_state() }),
        all_plain(seq![field_line(""@, "time_passed"@, decimal(time as nat)), ""@]),
{
    let file = SaveFile::ENVIRONMENT;
    let s0 = new_environment_state();
    let empty = Seq::<Seq<char>>::empty();
    let time_line = field_line(""@, "time_passed"@, decimal(time as nat));
    lemma_file_keys();
    lemma_parse_decimal(time as nat);
    lemma_field_line_plain(""@, "time_passed"@, decimal(time as nat));
    lemma_step_empty(file, s0);
    lemma_step_field(file, s0, "time_passed"@, decimal(time as nat));
    let s1 = SaveState { time_passed: time, ..s0 };
    assert(after_field(file, s0, "time_passed"@, decimal(time as nat)) == s1);
    lemma_step_empty(file, s1);
    let a = seq![""@, time_line, ""@];
    assert(a == empty.push(""@).push(time_line).push(""@));
    lemma_read_push(file, s0, empty, ""@);
    lemma_read_push(file, s0, empty.push(""@), time_line);
    lemma_read_push(file, s0, empty.push(""@).push(time_line), ""@);
    assert(read_lines(file, s0, empty) == s0);
}

/// The file of an environment is read back as it was written, into a new
/// environment.
pub proof fn lemma_read_environment(
    time: u8,
    units: Seq<(u64, Entity)>,
    next_unit: u64,
    items: Seq<(u64, Entity)>,
    next_item: u64,
)
    requires
        keys_ascend(units),
        keys_below(units, next_unit),
        next_unit >= 1,
        keys_ascend(items),
        keys_below(items, next_item),
        next_item >= 1,
    ensures
        ({
            let s = read_lines(
                SaveFile::ENVIRONMENT,
                new_environment_state(),
                lines(unlines(environment_lines(time, units, next_unit, items, next_item))),
            );
            &&& s.time_passed == time
            &&& s.units.entries == units
            &&& s.units.next_key == next_unit
            &&& s.items.entries == items
            &&& s.items.next_key == next_item
        }),
{
    let file = SaveFile::ENVIRONMENT;
    let s0 = new_environment_state();
    let head = seq![field_line(""@, "time_passed"@, decimal(time as nat)), ""@];
    let unit_section = section_lines(Block::UNIT, units, next_unit);
    let item_section = section_lines(Block::ITEM, items, next_item);
    let written = environment_lines(time, units, next_unit, items, next_item);
    lemma_read_environment_head(time);
    let s1 = SaveState { time_passed: time, ..s0 };
    lemma_read_section(file, s1, Block::UNIT, units, next_unit);
    let s2 = read_lines(file, s1, unit_section);
    lemma_step_empty(file, s2);
    lemma_read_push(file, s2, Seq::<Seq<char>>::empty(), ""@);
    assert(seq![""@] == Seq::<Seq<char>>::empty().push(""@));
    assert(read_lines(file, s2, Seq::<Seq<char>>::empty()) == s2);
    lemma_read_section(file, s2, Block::ITEM, items, next_item);
    assert(all_plain(seq![""@])) by {
        reveal_strlit("");
    }
    lemma_all_plain_add(head, unit_section);
    lemma_all_plain_add(head + unit_section, seq![""@]);
    lemma_all_plain_add(head + unit_section + seq![""@], item_section);
    assert(written.last() == item_section.last());
    lemma_read_written(written);
    let read = lines(unlines(written));
    assert(read == seq![""@] + head + unit_section + seq![""@] + item_section);
    assert(seq![""@] + head == seq![
        ""@,
        field_line(""@, "time_passed"@, decimal(time as nat)),
        ""@,
    ]);
    lemma_read_add(file, s0, seq![""@] + head, unit_section);
    lemma_read_add(file, s0, seq![""@] + head + unit_section, seq![""@]);
    lemma_read_add(file, s0, seq![""@] + head + unit_section + seq![""@], item_section);
}

/// What comes before the items in the file of a player is read back: the
/// level, the view distance and the capacity.
proof fn lemma_read_player_head(level: u8, view_distance: Position, capacity: usize)
    ensures
        read_lines(
            SaveFile::PLAYER,
            new_player_state(),
            seq![
                ""@,
                field_line(""@, "level"@, decimal(level as nat)),
                field_line(""@, "view_distance"@, view_distance.spec_name()),
                ""@,
                field_line(""@, "capacity"@, decimal(capacity as nat)),
            ],
        ) == (SaveState { level, view_distance, capacity, ..new_player_state() }),
        all_plain(
            seq![
                field_line(""@, "level"@, decimal(level as nat)),
                field_line(""@, "view_distance"@, view_distance.spec_name()),
                ""@,
                field_line(""@, "capacity"@, decimal(capacity as nat)),
            ],
        ),
{
    let file = SaveFile::PLAYER;
    let s0 = new_player_state();
    let empty = Seq::<Seq<char>>::empty();
    let level_line = field_line(""@, "level"@, decimal(level as nat));
    let view_line = field_line(""@, "view_distance"@, view_distance.spec_name());
    let capacity_line = field_line(""@, "capacity"@, decimal(capacity as nat));
    lemma_file_keys();
    lemma_parse_decimal(level as nat);
    lemma_parse_decimal(capacity as nat);
    view_distance.lemma_name_plain();
    view_distance.lemma_name_round_trip();
    lemma_field_line_plain(""@, "level"@, decimal(level as nat));
    lemma_field_line_plain(""@, "view_distance"@, view_distance.spec_name());
    lemma_field_line_plain(""@, "capacity"@, decimal(capacity as nat));
    lemma_step_empty(file, s0);
    lemma_step_field(file, s0, "level"@, decimal(level as nat));
    let s1 = SaveState { level, ..s0 };
    assert(after_field(file, s0, "level"@, decimal(level as nat)) == s1);
    lemma_step_field(file, s1, "view_distance"@, view_distance.spec_name());
    let s2 = SaveState { view_distance, ..s1 };
    assert(after_field(file, s1, "view_distance"@, view_distance.spec_name()) == s2);
    lemma_step_empty(file, s2);
    lemma_step_field(file, s2, "capacity"@, decimal(capacity as nat));
    let s3 = SaveState { capacity, ..s2 };
    assert(after_field(file, s2, "capacity"@, decimal(capacity as nat)) == s3);
    let a = seq![""@, level_line, view_line, ""@, capacity_line];
    let a1 = empty.push(""@);
    let a2 = a1.push(level_line);
    let a3 = a2.push(view_line);
    let a4 = a3.push(""@);
    assert(a == a4.push(capacity_line));
    lemma_read_push(file, s0, empty, ""@);
    lemma_read_push(file, s0, a1, level_line);
    lemma_read_push(file, s0, a2, view_line);
    lemma_read_push(file, s0, a3, ""@);
    lemma_read_push(file, s0, a4, capacity_line);
    assert(read_lines(file, s0, empty) == s0);
    assert(read_lines(file, s0, a1) == s0);
    assert(read_lines(file, s0, a2) == s1);
    assert(read_lines(file, s0, a3) == s2);
    assert(read_lines(file, s0, a4) == s2);
}

/// The file of a player is read back as it was written, into a new
/// player, if the inventory holds no more than it has room for.
pub proof fn lemma_read_player(
    level: u8,
    view_distance: Position,
    capacity: usize,
    items: Seq<(u64, Entity)>,
    next_item: u64,
)
    requires
        keys_ascend(items),
        keys_below(items, next_item),
        next_item >= 1,
        items.len() <= capacity,
    ensures
        ({
            let s = read_lines(
                SaveFile::PLAYER,
                new_player_state(),
                lines(unlines(player_lines(level, view_distance, capacity, items, next_item))),
            );
            &&& s.level == level
            &&& s.view_distance == view_distance
            &&& s.capacity == capacity
            &&& s.items.entries == items
            &&& s.items.next_key == next_item
        }),
{
    let file = SaveFile::PLAYER;
    let s0 = new_player_state();
    let head = seq![
        field_line(""@, "level"@, decimal(level as nat)),
        field_line(""@, "view_distance"@, view_distance.spec_name()),
        ""@,
        field_line(""@, "capacity"@, decimal(capacity as nat)),
    ];
    let section = section_lines(Block::ITEM, items, next_item);
    let written = player_lines(level, view_distance, capacity, items, next_item);
    lemma_read_player_head(level, view_distance, capacity);
    let s1 = SaveState { level, view_distance, capacity, ..s0 };
    lemma_read_section(file, s1, Block::ITEM, items, next_item);
    lemma_all_plain_add(head, section);
    assert(written.last() == section.last());
    lemma_read_written(written);
    assert(lines(unlines(written)) == seq![""@] + head + section);
    assert(seq![""@] + head == seq![
        ""@,
        field_line(""@, "level"@, decimal(level as nat)),
        field_line(""@, "view_distance"@, view_distance.spec_name()),
        ""@,
        field_line(""@, "capacity"@, decimal(capacity as nat)),
    ]);
    lemma_read_add(file, s0, seq![""@] + head, section);
}

/// Whether the name of a game is read back as it is written: it holds no
/// line feed, and neither starts nor ends with whitespace.
pub open spec fn is_plain_name(name: Seq<char>) -> bool {
    &&& !name.contains('\n')
    &&& name.len() == 0 || (!is_whitespace(name[0]) && !is_whitespace(name.last()))
}

/// The metadata file of a game is read back as it was written.
pub proof fn lemma_read_metadata(
    start: Metadata,
    name: Seq<char>,
    state: GameState,
    difficulty: RotfDifficulty,
)
    requires
        is_plain_name(name),
    ensures
        read_metadata(
            start,
            lines(
                unlines(
                    seq![
                        field_line(""@, "name"@, name),
                        field_line(""@, "state"@, state.spec_name()),
                        field_line(""@, "difficulty"@, difficulty.spec_name()),
                    ],
                ),
            ),
        ) == (Metadata { name, state, difficulty }),
{
    reveal_strlit("name");
    reveal_strlit("state");
    reveal_strlit("difficulty");
    reveal_strlit("");
    let name_line = field_line(""@, "name"@, name);
    let state_line = field_line(""@, "state"@, state.spec_name());
    let difficulty_line = field_line(""@, "difficulty"@, difficulty.spec_name());
    let written = seq![name_line, state_line, difficulty_line];
    lemma_trim_clean(name);
    state.lemma_name_plain();
    state.lemma_name_round_trip();
    difficulty.lemma_name_plain();
    difficulty.lemma_name_round_trip();
    assert(is_key("name"@));
    assert(is_key("state"@));
    assert(is_key("difficulty"@));
    assert("name"@.len() == 4);
    assert("state"@.len() == 5);
    assert("difficulty"@.len() == 10);
    lemma_field_line(""@, "name"@, name);
    lemma_field_line(""@, "state"@, state.spec_name());
    lemma_field_line(""@, "difficulty"@, difficulty.spec_name());
    lemma_field_line_plain(""@, "name"@, name);
    lemma_field_line_plain(""@, "state"@, state.spec_name());
    lemma_field_line_plain(""@, "difficulty"@, difficulty.spec_name());
    lemma_read_written(written);
    lemma_no_field(""@);
    let empty = Seq::<Seq<char>>::empty();
    let l1 = empty.push(""@);
    let l2 = l1.push(name_line);
    let l3 = l2.push(state_line);
    let l4 = l3.push(difficulty_line);
    assert(seq![""@] + written == l4);
    assert(l1.drop_last() == empty);
    assert(l2.drop_last() == l1);
    assert(l3.drop_last() == l2);
    assert(l4.drop_last() == l3);
    assert(read_metadata(start, empty) == start);
    assert(read_metadata(start, l1) == metadata_step(start, ""@));
    assert(read_metadata(start, l1) == start);
    assert(read_metadata(start, l2) == metadata_step(start, name_line));
    assert(read_metadata(start, l2) == (Metadata { name, ..start }));
    assert(read_metadata(start, l3) == metadata_step(read_metadata(start, l2), state_line));
    assert(read_metadata(start, l3) == (Metadata { name, state, ..start }));
    assert(read_metadata(start, l4) == metadata_step(read_metadata(start, l3), difficulty_line));
}

/// Instances that are made of the same, under the same keys, are the same.
pub proof fn lemma_same_entities<T: Instance>(a: Seq<(u64, T)>, b: Seq<(u64, T)>)
    requires
        entities_of(a) == entities_of(b),
    ensures
        a == b,
{
    assert(a.len() == entities_of(a).len());
    assert(b.len() == entities_of(b).len());
    assert forall|i: int| 0 <= i < a.len() implies a[i] == b[i] by {
        assert(entities_of(a)[i] == (a[i].0, a[i].1.spec_entity()));
        assert(entities_of(b)[i] == (b[i].0, b[i].1.spec_entity()));
        a[i].1.lemma_from_entity();
        b[i].1.lemma_from_entity();
    }
    assert(a =~= b);
}

/// What instances are made of stands under their keys.
pub proof fn lemma_entities_keys<T: Instance>(a: Seq<(u64, T)>, next: u64)
    requires
        keys_ascend(a),
        keys_below(a, next),
    ensures
        keys_ascend(entities_of(a)),
        keys_below(entities_of(a), next),
        entities_of(a).len() == a.len(),
{
    assert forall|i: int| 0 <= i < a.len() implies (#[trigger] entities_of(a)[i]).0 == a[i].0 by {}
}

/// A game that is saved and loaded is the game that it was: the same
/// name and difficulty, the same level, view distance and capacity, the
/// same time passed, and the same units, items and inventory under the same
/// keys, with the same counters. The state is the same but for combat,
/// which is not kept. This holds of a game whose name can be read back and
/// whose inventory holds no more than it has room for.
pub proof fn law_save_load(game: &RotfGame, loaded: &RotfGame, name: Seq<char>)
    requires
        game.environment.units.wf(),
        game.environment.items.wf(),
        game.player.inventory.items.wf(),
        game.player.inventory.items@.len() <= game.player.inventory.capacity,
        is_plain_name(game.name@),
        loaded.loaded_from(
            name,
            game.spec_save().metadata->0,
            game.spec_save().player->0,
            game.spec_save().environment->0,
        ),
    ensures
        loaded.name@ == game.name@,
        loaded.state == settled(game.state),
        loaded.difficulty == game.difficulty,
        loaded.player.level == game.player.level,
        loaded.player.view_distance == game.player.view_distance,
        loaded.player.inventory.capacity == game.player.inventory.capacity,
        loaded.player.inventory.items@ == game.player.inventory.items@,
        loaded.player.inventory.items.spec_next_key()
            == game.player.inventory.items.spec_next_key(),
        loaded.environment.time_passed == game.environment.time_passed,
        loaded.environment.units@ == game.environment.units@,
        loaded.environment.units.spec_next_key() == game.environment.units.spec_next_key(),
        loaded.environment.items@ == game.environment.items@,
        loaded.environment.items.spec_next_key() == game.environment.items.spec_next_key(),
{
    lemma_read_metadata(
        Metadata {
            name: crate::game::slug(name),
            state: GameState::CUTSCENE,
            difficulty: RotfDifficulty::NORMAL,
        },
        game.name@,
        game.state,
        game.difficulty,
    );
    let env = game.environment;
    lemma_entities_keys(env.units@, env.units.spec_next_key());
    lemma_entities_keys(env.items@, env.items.spec_next_key());
    lemma_read_environment(
        env.time_passed,
        entities_of(env.units@),
        env.units.spec_next_key(),
        entities_of(env.items@),
        env.items.spec_next_key(),
    );
    assert(env.spec_file_lines() =~= environment_lines(
        env.time_passed,
        entities_of(env.units@),
        env.units.spec_next_key(),
        entities_of(env.items@),
        env.items.spec_next_key(),
    ));
    let inventory = game.player.inventory;
    lemma_entities_keys(inventory.items@, inventory.items.spec_next_key());
    lemma_read_player(
        game.player.level,
        game.player.view_distance,
        inventory.capacity,
        entities_of(inventory.items@),
        inventory.items.spec_next_key(),
    );
    assert(game.player.spec_file_lines() =~= player_lines(
        game.player.level,
        game.player.view_distance,
        inventory.capacity,
        entities_of(inventory.items@),
        inventory.items.spec_next_key(),
    ));
    lemma_same_entities(loaded.environment.units@, env.units@);
    lemma_same_entities(loaded.environment.items@, env.items@);
    lemma_same_entities(loaded.player.inventory.items@, inventory.items@);
}

} // verus!
