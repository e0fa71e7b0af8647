//! The console's world map: which glyph, in which tint, each cell of the
//! map grid shows, once positions have been scaled to cells.
//!
//! Interference zones are drawn first, then transmitting emitters, then
//! entities with their labels, each layer over the ones before; receivers
//! are drawn last, on cells that are still blank.

use vstd::prelude::*;

use crate::model::world::Faction;

verus! {

/// The colour class of a map cell.
#[derive(Debug, Clone, Copy, PartialEq, Eq, Hash, Structural)]
pub enum Tint {
    Blank,
    Zone,
    BlueBright,
    BlueDim,
    RedBright,
    RedDim,
    NeutralBright,
    NeutralDim,
    Receiver,
}

/// What one cell of the map shows.
#[derive(Debug, Clone, Copy, PartialEq, Eq, Hash, Structural)]
pub struct MapCell {
    pub glyph: char,
    pub tint: Tint,
}

/// An interference zone: the cell of its centre and its radius in cells.
#[derive(Debug, Clone, Copy, PartialEq, Eq, Hash, Structural)]
pub struct MapZone {
    pub x: usize,
    pub y: usize,
    pub radius: usize,
}

/// An emitter: its cell, whether it transmits, and its owner's faction if
/// the owner is known.
#[derive(Debug, Clone, Copy, PartialEq, Eq, Hash, Structural)]
pub struct MapEmitter {
    pub x: usize,
    pub y: usize,
    pub transmitting: bool,
    pub owner: Option<Faction>,
}

/// An entity: its cell, faction, whether it is active, and its label.
#[derive(Debug, Clone)]
pub struct MapEntity {
    pub x: usize,
    pub y: usize,
    pub faction: Faction,
    pub active: bool,
    pub label: Vec<char>,
}

/// The cell that a zone marks at offset `d` forward of `c` on an axis of
/// `lim` cells: `c + d`, held at the last cell.
pub open spec fn reach_fwd(c: int, d: int, lim: int) -> int {
    if c + d < lim - 1 {
        c + d
    } else {
        lim - 1
    }
}

/// The cell that a zone marks at offset `d` back from `c` on an axis of
/// `lim` cells: `c - d`, held at the first and at the last cell.
pub open spec fn reach_back(c: int, d: int, lim: int) -> int {
    let v = if c - d > 0 {
        c - d
    } else {
        0
    };
    if v < lim - 1 {
        v
    } else {
        lim - 1
    }
}

/// Whether the offsets `(dx, dy)` lie within the quarter disc of radius
/// `r` that a zone's drawing walks.
pub open spec fn in_disc(dx: int, dy: int, r: int) -> bool {
    0 <= dx < r && 0 <= dy < r && dx * dx + dy * dy <= r * r
}

/// Whether zone `z` marks cell `(x, y)` at the offsets `(dx, dy)`, forward
/// on both axes.
pub open spec fn marks_fwd(z: MapZone, dx: int, dy: int, x: int, y: int, cols: int, rows: int) -> bool {
    &&& in_disc(dx, dy, z.radius as int)
    &&& x == reach_fwd(z.x as int, dx, cols)
    &&& y == reach_fwd(z.y as int, dy, rows)
}

/// Whether zone `z` marks cell `(x, y)` at the offsets `(dx, dy)`, back on
/// both axes.
pub open spec fn marks_back(z: MapZone, dx: int, dy: int, x: int, y: int, cols: int, rows: int) -> bool {
    &&& in_disc(dx, dy, z.radius as int)
    &&& x == reach_back(z.x as int, dx, cols)
    &&& y == reach_back(z.y as int, dy, rows)
}

/// Whether zone `z` marks cell `(x, y)`: at some pair of offsets within
/// its quarter disc, forward on both axes or back on both axes.
pub open spec fn zone_covers(z: MapZone, x: int, y: int, cols: int, rows: int) -> bool {
    ||| exists|dx: int, dy: int| #[trigger] marks_fwd(z, dx, dy, x, y, cols, rows)
    ||| exists|dx: int, dy: int| #[trigger] marks_back(z, dx, dy, x, y, cols, rows)
}

/// The smallest forward offset from `c` that reaches `target`, if any.
fn first_reach_fwd(c: usize, target: usize, lim: usize) -> (m: Option<usize>)
    requires
        target < lim,
    ensures
        match m {
            Some(d) => reach_fwd(c as int, d as int, lim as int) == target && forall|e: int|
                0 <= e && reach_fwd(c as int, e, lim as int) == target ==> d <= e,
            None => forall|e: int| 0 <= e ==> reach_fwd(c as int, e, lim as int) != target,
        },
{
    if target + 1 == lim {
        if c >= target {
            Some(0)
        } else {
            Some(target - c)
        }
    } else if c <= target {
        Some(target - c)
    } else {
        None
    }
}

/// The smallest backward offset from `c` that reaches `target`, if any.
fn first_reach_back(c: usize, target: usize, lim: usize) -> (m: Option<usize>)
    requires
        target < lim,
        2 <= lim,
    ensures
        match m {
            Some(d) => reach_back(c as int, d as int, lim as int) == target && forall|e: int|
                0 <= e && reach_back(c as int, e, lim as int) == target ==> d <= e,
            None => forall|e: int| 0 <= e ==> reach_back(c as int, e, lim as int) != target,
        },
{
    if target + 1 == lim {
        if c >= target {
            Some(0)
        } else {
            None
        }
    } else if target == 0 {
        Some(c)
    } else if c >= target {
        Some(c - target)
    } else {
        None
    }
}

proof fn lemma_disc_shrinks(dx: int, dy: int, ex: int, ey: int, r: int)
    requires
        0 <= dx <= ex,
        0 <= dy <= ey,
        in_disc(ex, ey, r),
    ensures
        in_disc(dx, dy, r),
{
    assert(dx * dx <= ex * ex) by (nonlinear_arith)
        requires
            0 <= dx <= ex,
    ;
    assert(dy * dy <= ey * ey) by (nonlinear_arith)
        requires
            0 <= dy <= ey,
    ;
}

/// Whether the offsets `(dx, dy)` lie within the quarter disc of radius `r`.
fn within_disc(dx: usize, dy: usize, r: usize) -> (b: bool)
    ensures
        b == in_disc(dx as int, dy as int, r as int),
{
    if dx >= r || dy >= r {
        return false;
    }
    let rr = r as u128;
    let yy = dy as u128;
    let xx = dx as u128;
    assert(rr * rr <= u128::MAX) by (nonlinear_arith)
        requires
            rr <= u64::MAX,
    ;
    assert(yy * yy <= rr * rr) by (nonlinear_arith)
        requires
            yy < rr,
    ;
    assert(xx * xx <= rr * rr) by (nonlinear_arith)
        requires
            xx < rr,
    ;
    xx * xx <= rr * rr - yy * yy
}

/// Whether zone `z` marks cell `(x, y)`.
fn zone_marks(z: &MapZone, x: usize, y: usize, cols: usize, rows: usize) -> (b: bool)
    requires
        x < cols,
        y < rows,
        2 <= cols,
        2 <= rows,
    ensures
        b == zone_covers(*z, x as int, y as int, cols as int, rows as int),
{
    let fx = first_reach_fwd(z.x, x, cols);
    let fy = first_reach_fwd(z.y, y, rows);
    let fwd = match (fx, fy) {
        (Some(dx), Some(dy)) => within_disc(dx, dy, z.radius),
        _ => false,
    };
    let bx = first_reach_back(z.x, x, cols);
    let by = first_reach_back(z.y, y, rows);
    let back = match (bx, by) {
        (Some(dx), Some(dy)) => within_disc(dx, dy, z.radius),
        _ => false,
    };
    proof {
        let (xi, yi, ci, ri) = (x as int, y as int, cols as int, rows as int);
        if fwd {
            let (dx, dy) = (fx->0 as int, fy->0 as int);
            assert(marks_fwd(*z, dx, dy, xi, yi, ci, ri));
        } else {
            assert forall|ex: int, ey: int| !#[trigger] marks_fwd(*z, ex, ey, xi, yi, ci, ri) by {
                if marks_fwd(*z, ex, ey, xi, yi, ci, ri) {
                    lemma_disc_shrinks(fx->0 as int, fy->0 as int, ex, ey, z.radius as int);
                }
            }
        }
        if back {
            let (dx, dy) = (bx->0 as int, by->0 as int);
            assert(marks_back(*z, dx, dy, xi, yi, ci, ri));
        } else {
            assert forall|ex: int, ey: int| !#[trigger] marks_back(*z, ex, ey, xi, yi, ci, ri) by {
                if marks_back(*z, ex, ey, xi, yi, ci, ri) {
                    lemma_disc_shrinks(bx->0 as int, by->0 as int, ex, ey, z.radius as int);
                }
            }
        }
    }
    fwd || back
}

/// Whether some zone of `zones` marks cell `(x, y)`.
pub open spec fn covered(zones: Seq<MapZone>, x: int, y: int, cols: int, rows: int) -> bool {
    exists|i: int| 0 <= i < zones.len() && #[trigger] zone_covers(zones[i], x, y, cols, rows)
}

/// The glyph of a cell inside an interference zone.
pub const ZONE_GLYPH: char = '\u{2591}';

/// The glyph of a receiver.
pub const RECEIVER_GLYPH: char = '\u{25CE}';

/// The glyph of a transmitting emitter.
pub const EMITTER_GLYPH: char = '\u{25C6}';

/// The tint of an emitter: that of its owner's faction, neutral if the
/// owner is neutral or unknown.
pub open spec fn emitter_tint(owner: Option<Faction>) -> Tint {
    match owner {
        Some(Faction::Blue) => Tint::BlueBright,
        Some(Faction::Red) => Tint::RedBright,
        _ => Tint::NeutralBright,
    }
}

/// The cell of an entity of `faction`: an upward triangle for Blue, a
/// downward one for Red, a circle for neutral; filled and bright while
/// active, hollow and dim when not.
pub open spec fn entity_cell(faction: Faction, active: bool) -> MapCell {
    match (faction, active) {
        (Faction::Blue, true) => MapCell { glyph: '\u{25B2}', tint: Tint::BlueBright },
        (Faction::Blue, false) => MapCell { glyph: '\u{25B3}', tint: Tint::BlueDim },
        (Faction::Red, true) => MapCell { glyph: '\u{25BC}', tint: Tint::RedBright },
        (Faction::Red, false) => MapCell { glyph: '\u{25BD}', tint: Tint::RedDim },
        (Faction::Neutral, true) => MapCell { glyph: '\u{25CF}', tint: Tint::NeutralBright },
        (Faction::Neutral, false) => MapCell { glyph: '\u{25CB}', tint: Tint::NeutralDim },
    }
}

/// What emitter `e` draws on cell `(x, y)`, if anything.
pub open spec fn emitter_mark(e: MapEmitter, x: int, y: int) -> Option<MapCell> {
    if e.transmitting && e.x == x && e.y == y {
        Some(MapCell { glyph: EMITTER_GLYPH, tint: emitter_tint(e.owner) })
    } else {
        None
    }
}

/// What the emitters `es` leave on cell `(x, y)`: the mark of the last one
/// that draws there.
pub open spec fn top_emitter_mark(es: Seq<MapEmitter>, x: int, y: int) -> Option<MapCell>
    decreases es.len(),
{
    if es.len() == 0 {
        None
    } else {
        match emitter_mark(es.last(), x, y) {
            Some(c) => Some(c),
            None => top_emitter_mark(es.drop_last(), x, y),
        }
    }
}

/// What entity `e` draws on cell `(x, y)` of a `cols` by `rows` map: its
/// glyph on its own cell if that is on the map, and its label to the right
/// of it, one character per cell up to the map's edge, when the label is
/// not empty and at least two cells are left to its right.
pub open spec fn entity_mark(e: MapEntity, x: int, y: int, cols: int, rows: int) -> Option<MapCell> {
    if e.x < cols && e.y < rows && e.y == y {
        if x == e.x {
            Some(entity_cell(e.faction, e.active))
        } else if e.label@.len() > 0 && e.x + 2 < cols && e.x + 1 <= x < cols && x - e.x - 1
            < e.label@.len() {
            Some(
                MapCell {
                    glyph: e.label@[x - e.x - 1],
                    tint: entity_cell(e.faction, e.active).tint,
                },
            )
        } else {
            None
        }
    } else {
        None
    }
}

/// What the entities `es` leave on cell `(x, y)`: the mark of the last one
/// that draws there.
pub open spec fn top_entity_mark(es: Seq<MapEntity>, x: int, y: int, cols: int, rows: int) -> Option<
    MapCell,
>
    decreases es.len(),
{
    if es.len() == 0 {
        None
    } else {
        match entity_mark(es.last(), x, y, cols, rows) {
            Some(c) => Some(c),
            None => top_entity_mark(es.drop_last(), x, y, cols, rows),
        }
    }
}

/// Whether a receiver of `rs` stands on cell `(x, y)`.
pub open spec fn receiver_on(rs: Seq<(usize, usize)>, x: int, y: int) -> bool {
    exists|i: int| 0 <= i < rs.len() && #[trigger] rs[i] == (x as usize, y as usize)
}

/// What cell `(x, y)` of a `cols` by `rows` map shows: the last entity
/// drawn there, else the last transmitting emitter, else a zone mark, else
/// nothing; and a receiver where that leaves the cell blank.
pub open spec fn map_cell(
    cols: int,
    rows: int,
    zones: Seq<MapZone>,
    emitters: Seq<MapEmitter>,
    entities: Seq<MapEntity>,
    receivers: Seq<(usize, usize)>,
    x: int,
    y: int,
) -> MapCell {
    let under = match top_entity_mark(entities, x, y, cols, rows) {
        Some(c) => c,
        None => match top_emitter_mark(emitters, x, y) {
            Some(c) => c,
            None => if covered(zones, x, y, cols, rows) {
                MapCell { glyph: ZONE_GLYPH, tint: Tint::Zone }
            } else {
                MapCell { glyph: ' ', tint: Tint::Blank }
            },
        },
    };
    if under.glyph == ' ' && receiver_on(receivers, x, y) {
        MapCell { glyph: RECEIVER_GLYPH, tint: Tint::Receiver }
    } else {
        under
    }
}

fn any_zone_marks(zones: &[MapZone], x: usize, y: usize, cols: usize, rows: usize) -> (b: bool)
    requires
        x < cols,
        y < rows,
        2 <= cols,
        2 <= rows,
    ensures
        b == covered(zones@, x as int, y as int, cols as int, rows as int),
{
    let mut i: usize = 0;
    while i < zones.len()
        invariant
            i <= zones@.len(),
            x < cols,
            y < rows,
            2 <= cols,
            2 <= rows,
            forall|k: int|
                0 <= k < i ==> !#[trigger] zone_covers(
                    zones@[k],
                    x as int,
                    y as int,
                    cols as int,
                    rows as int,
                ),
        decreases zones@.len() - i,
    {
        if zone_marks(&zones[i], x, y, cols, rows) {
            return true;
        }
        i = i + 1;
    }
    false
}

fn emitter_tint_of(owner: Option<Faction>) -> (t: Tint)
    ensures
        t == emitter_tint(owner),
{
    match owner {
        Some(Faction::Blue) => Tint::BlueBright,
        Some(Faction::Red) => Tint::RedBright,
        _ => Tint::NeutralBright,
    }
}

fn top_emitter(emitters: &[MapEmitter], x: usize, y: usize) -> (m: Option<MapCell>)
    ensures
        m == top_emitter_mark(emitters@, x as int, y as int),
{
    let ghost all = emitters@;
    let mut j: usize = emitters.len();
    proof {
        assert(all.take(j as int) =~= all);
    }
    while j > 0
        invariant
            j <= all.len(),
            emitters@ == all,
            top_emitter_mark(all, x as int, y as int) == top_emitter_mark(
                all.take(j as int),
                x as int,
                y as int,
            ),
        decreases j,
    {
        proof {
            assert(all.take(j as int).drop_last() =~= all.take(j as int - 1));
            assert(all.take(j as int).last() == all[j as int - 1]);
        }
        let e = &emitters[j - 1];
        if e.transmitting && e.x == x && e.y == y {
            return Some(MapCell { glyph: EMITTER_GLYPH, tint: emitter_tint_of(e.owner) });
        }
        j = j - 1;
    }
    None
}

fn entity_cell_of(faction: Faction, active: bool) -> (c: MapCell)
    ensures
        c == entity_cell(faction, active),
{
    match (faction, active) {
        (Faction::Blue, true) => MapCell { glyph: '\u{25B2}', tint: Tint::BlueBright },
        (Faction::Blue, false) => MapCell { glyph: '\u{25B3}', tint: Tint::BlueDim },
        (Faction::Red, true) => MapCell { glyph: '\u{25BC}', tint: Tint::RedBright },
        (Faction::Red, false) => MapCell { glyph: '\u{25BD}', tint: Tint::RedDim },
        (Faction::Neutral, true) => MapCell { glyph: '\u{25CF}', tint: Tint::NeutralBright },
        (Faction::Neutral, false) => MapCell { glyph: '\u{25CB}', tint: Tint::NeutralDim },
    }
}

fn entity_draws(e: &MapEntity, x: usize, y: usize, cols: usize, rows: usize) -> (m: Option<MapCell>)
    ensures
        m == entity_mark(*e, x as int, y as int, cols as int, rows as int),
{
    if e.x < cols && e.y < rows && e.y == y {
        if x == e.x {
            Some(entity_cell_of(e.faction, e.active))
        } else if e.label.len() > 0 && cols - e.x > 2 && e.x < x && x < cols && x - e.x - 1
            < e.label.len() {
            Some(MapCell { glyph: e.label[x - e.x - 1], tint: entity_cell_of(e.faction, e.active).tint })
        } else {
            None
        }
    } else {
        None
    }
}

fn top_entity(entities: &[MapEntity], x: usize, y: usize, cols: usize, rows: usize) -> (m: Option<
    MapCell,
>)
    ensures
        m == top_entity_mark(entities@, x as int, y as int, cols as int, rows as int),
{
    let ghost all = entities@;
    let mut j: usize = entities.len();
    proof {
        assert(all.take(j as int) =~= all);
    }
    while j > 0
        invariant
            j <= all.len(),
            entities@ == all,
            top_entity_mark(all, x as int, y as int, cols as int, rows as int) == top_entity_mark(
                all.take(j as int),
                x as int,
                y as int,
                cols as int,
                rows as int,
            ),
        decreases j,
    {
        proof {
            assert(all.take(j as int).drop_last() =~= all.take(j as int - 1));
            assert(all.take(j as int).last() == all[j as int - 1]);
        }
        let m = entity_draws(&entities[j - 1], x, y, cols, rows);
        if m.is_some() {
            return m;
        }
        j = j - 1;
    }
    None
}

fn any_receiver_on(receivers: &[(usize, usize)], x: usize, y: usize) -> (b: bool)
    ensures
        b == receiver_on(receivers@, x as int, y as int),
{
    let mut i: usize = 0;
    while i < receivers.len()
        invariant
            i <= receivers@.len(),
            forall|k: int| 0 <= k < i ==> #[trigger] receivers@[k] != (x, y),
        decreases receivers@.len() - i,
    {
        if receivers[i].0 == x && receivers[i].1 == y {
            proof {
                assert(receivers@[i as int] == (x, y));
            }
            return true;
        }
        i = i + 1;
    }
    false
}

/// What cell `(x, y)` of the map shows.
fn cell_at(
    cols: usize,
    rows: usize,
    zones: &[MapZone],
    emitters: &[MapEmitter],
    entities: &[MapEntity],
    receivers: &[(usize, usize)],
    x: usize,
    y: usize,
) -> (c: MapCell)
    requires
        x < cols,
        y < rows,
        2 <= cols,
        2 <= rows,
    ensures
        c == map_cell(
            cols as int,
            rows as int,
            zones@,
            emitters@,
            entities@,
            receivers@,
            x as int,
            y as int,
        ),
{
    let under = match top_entity(entities, x, y, cols, rows) {
        Some(c) => c,
        None => match top_emitter(emitters, x, y) {
            Some(c) => c,
            None => if any_zone_marks(zones, x, y, cols, rows) {
                MapCell { glyph: ZONE_GLYPH, tint: Tint::Zone }
            } else {
                MapCell { glyph: ' ', tint: Tint::Blank }
            },
        },
    };
    if under.glyph == ' ' && any_receiver_on(receivers, x, y) {
        MapCell { glyph: RECEIVER_GLYPH, tint: Tint::Receiver }
    } else {
        under
    }
}

/// The world map as a grid of `rows` rows of `cols` cells each, with the
/// zones, emitters, entities and receivers at the cells given.
pub fn map_grid(
    cols: usize,
    rows: usize,
    zones: &[MapZone],
    emitters: &[MapEmitter],
    entities: &[MapEntity],
    receivers: &[(usize, usize)],
) -> (grid: Vec<Vec<MapCell>>)
    requires
        5 <= cols,
        5 <= rows,
    ensures
        grid@.len() == rows,
        forall|y: int| 0 <= y < rows ==> (#[trigger] grid@[y])@.len() == cols,
        forall|y: int, x: int|
            0 <= y < rows && 0 <= x < cols ==> (#[trigger] grid@[y]@[x]) == map_cell(
                cols as int,
                rows as int,
                zones@,
                emitters@,
                entities@,
                receivers@,
                x,
                y,
            ),
{
    let mut grid: Vec<Vec<MapCell>> = Vec::new();
    let mut y: usize = 0;
    while y < rows
        invariant
            y <= rows,
            5 <= cols,
            5 <= rows,
            grid@.len() == y,
            forall|yy: int| 0 <= yy < y ==> (#[trigger] grid@[yy])@.len() == cols,
            forall|yy: int, xx: int|
                0 <= yy < y && 0 <= xx < cols ==> (#[trigger] grid@[yy]@[xx]) == map_cell(
                    cols as int,
                    rows as int,
                    zones@,
                    emitters@,
                    entities@,
                    receivers@,
                    xx,
                    yy,
                ),
        decreases rows - y,
    {
        let mut row: Vec<MapCell> = Vec::new();
        let mut x: usize = 0;
        while x < cols
            invariant
                x <= cols,
                y < rows,
                5 <= cols,
                5 <= rows,
                row@.len() == x,
                forall|xx: int|
                    0 <= xx < x ==> (#[trigger] row@[xx]) == map_cell(
                        cols as int,
                        rows as int,
                        zones@,
                        emitters@,
                        entities@,
                        receivers@,
                        xx,
                        y as int,
                    ),
            decreases cols - x,
        {
            let c = cell_at(cols, rows, zones, emitters, entities, receivers, x, y);
            row.push(c);
            x = x + 1;
        }
        grid.push(row);
        y = y + 1;
    }
    grid
}

/// Activity shows on the map: for every faction, an active entity and an
/// inactive one are drawn with different glyphs, the active one in its
/// faction's bright tint and the inactive one in its faction's dim tint.
pub proof fn lemma_activity_shows(faction: Faction)
    ensures
        entity_cell(faction, true).glyph != entity_cell(faction, false).glyph,
        entity_cell(faction, true).tint != entity_cell(faction, false).tint,
        faction == Faction::Blue ==> entity_cell(faction, true).tint == Tint::BlueBright
            && entity_cell(faction, false).tint == Tint::BlueDim,
        faction == Faction::Red ==> entity_cell(faction, true).tint == Tint::RedBright
            && entity_cell(faction, false).tint == Tint::RedDim,
        faction == Faction::Neutral ==> entity_cell(faction, true).tint == Tint::NeutralBright
            && entity_cell(faction, false).tint == Tint::NeutralDim,
{
}

/// An entity alone on an otherwise empty map shows on its own cell, when
/// that cell is on the map, in the cell of its faction and activity.
pub proof fn lemma_lone_entity_shows(cols: int, rows: int, e: MapEntity)
    requires
        e.x < cols,
        e.y < rows,
    ensures
        map_cell(
            cols,
            rows,
            Seq::empty(),
            Seq::empty(),
            seq![e],
            Seq::empty(),
            e.x as int,
            e.y as int,
        ) == entity_cell(e.faction, e.active),
{
    let es = seq![e];
    assert(es.last() == e);
    assert(entity_mark(e, e.x as int, e.y as int, cols, rows) == Some(
        entity_cell(e.faction, e.active),
    ));
    assert(top_entity_mark(es, e.x as int, e.y as int, cols, rows) == Some(
        entity_cell(e.faction, e.active),
    ));
    assert(entity_cell(e.faction, e.active).glyph != ' ');
}

} // verus!
