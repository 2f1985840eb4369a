//! The rotation / flip transform of a circuit on the grid: footprint size,
//! cell positions and pin directions, and the inverse for positions.

use vstd::prelude::*;

use crate::geometry::{in_bounds, Direction4, Direction8, Vec2usize};

verus! {

/// Who carries out a transform: the engine's formulas, or the circuit type.
#[derive(Debug, Clone, Copy, PartialEq, Eq, Structural)]
pub enum TransformSupport {
    Automatic,
    Manual,
}

/// The axes a flip mirrors.
#[derive(Debug, Clone, Copy, PartialEq, Eq, Structural)]
pub enum FlipType {
    Vertical,
    Horizontal,
    Both,
}

#[derive(Debug, Clone, Copy, PartialEq, Eq, Structural)]
pub struct CircuitRotationSupport {
    pub support: TransformSupport,
    pub default_dir: Direction4,
}

#[derive(Debug, Clone, Copy, PartialEq, Eq, Structural)]
pub struct CircuitFlipSupport {
    pub support: TransformSupport,
    pub ty: FlipType,
}

/// The transforms a circuit type declares, each optional.
#[derive(Debug, Clone, Copy, PartialEq, Eq, Structural)]
pub struct CircuitTransformSupport {
    pub rotation: Option<CircuitRotationSupport>,
    pub flip: Option<CircuitFlipSupport>,
}

/// `wanted` is absent (any support will do) or equal to `actual`.
pub open spec fn support_matches(wanted: Option<TransformSupport>, actual: TransformSupport) -> bool {
    match wanted {
        None => true,
        Some(s) => s == actual,
    }
}

impl CircuitTransformSupport {
    /// Default direction of a declared rotation whose support matches `support`.
    pub open spec fn rotation_dir_spec(self, support: Option<TransformSupport>) -> Option<Direction4> {
        match self.rotation {
            None => None,
            Some(rot) => if support_matches(support, rot.support) {
                Some(rot.default_dir)
            } else {
                None
            },
        }
    }

    /// Flip axes of a declared flip whose support matches `support`.
    pub open spec fn flip_type_spec(self, support: Option<TransformSupport>) -> Option<FlipType> {
        match self.flip {
            None => None,
            Some(flip) => if support_matches(support, flip.support) {
                Some(flip.ty)
            } else {
                None
            },
        }
    }

    pub fn rotation_default_dir(&self, support: Option<TransformSupport>) -> (r: Option<Direction4>)
        ensures
            r == self.rotation_dir_spec(support),
    {
        let rot = match self.rotation {
            Some(rot) => rot,
            None => return None,
        };
        if let Some(s) = support {
            if rot.support != s {
                return None;
            }
        }
        Some(rot.default_dir)
    }

    pub fn flip_type(&self, support: Option<TransformSupport>) -> (r: Option<FlipType>)
        ensures
            r == self.flip_type_spec(support),
    {
        let flip = match self.flip {
            Some(flip) => flip,
            None => return None,
        };
        if let Some(s) = support {
            if flip.support != s {
                return None;
            }
        }
        Some(flip.ty)
    }
}

/// Mirror `p` inside a footprint of size `size`.
pub open spec fn flip_pos_spec(p: Vec2usize, size: Vec2usize, flip: Option<FlipType>) -> Vec2usize {
    match flip {
        None => p,
        Some(FlipType::Vertical) => Vec2usize { x: p.x, y: (size.y - p.y - 1) as usize },
        Some(FlipType::Horizontal) => Vec2usize { x: (size.x - p.x - 1) as usize, y: p.y },
        Some(FlipType::Both) => Vec2usize {
            x: (size.x - p.x - 1) as usize,
            y: (size.y - p.y - 1) as usize,
        },
    }
}

/// The size of a footprint of size `size` once turned by `dir`.
pub open spec fn rotated_size_spec(size: Vec2usize, dir: Direction4) -> Vec2usize {
    if dir.is_vertical_spec() {
        size
    } else {
        size.swap_spec()
    }
}

/// Turn `pos` by `dir`; `target_size` is the footprint's size after the turn.
pub open spec fn rotate_pos_spec(pos: Vec2usize, target_size: Vec2usize, dir: Direction4) -> Vec2usize {
    match dir {
        Direction4::Up => pos,
        Direction4::Left => Vec2usize { x: pos.y, y: (target_size.y - pos.x - 1) as usize },
        Direction4::Down => Vec2usize {
            x: (target_size.x - pos.x - 1) as usize,
            y: (target_size.y - pos.y - 1) as usize,
        },
        Direction4::Right => Vec2usize { x: (target_size.x - pos.y - 1) as usize, y: pos.x },
    }
}

fn flip_pos(p: Vec2usize, size: Vec2usize, flip: Option<FlipType>) -> (r: Vec2usize)
    requires
        in_bounds(p, size),
    ensures
        r == flip_pos_spec(p, size, flip),
        in_bounds(r, size),
{
    match flip {
        None => p,
        Some(FlipType::Vertical) => Vec2usize::new(p.x, size.y - p.y - 1),
        Some(FlipType::Horizontal) => Vec2usize::new(size.x - p.x - 1, p.y),
        Some(FlipType::Both) => Vec2usize::new(size.x - p.x - 1, size.y - p.y - 1),
    }
}

/// Turns a cell position by a quarter-turn count; `target_size` is the size of
/// the footprint after the turn.
pub fn rotate_pos(pos: Vec2usize, target_size: Vec2usize, dir: Direction4) -> (r: Vec2usize)
    requires
        in_bounds(pos, rotated_size_spec(target_size, dir)),
    ensures
        r == rotate_pos_spec(pos, target_size, dir),
        in_bounds(r, target_size),
{
    match dir {
        Direction4::Up => pos,
        Direction4::Left => Vec2usize::new(pos.y, target_size.y - pos.x - 1),
        Direction4::Down => Vec2usize::new(target_size.x - pos.x - 1, target_size.y - pos.y - 1),
        Direction4::Right => Vec2usize::new(target_size.x - pos.y - 1, pos.x),
    }
}

/// The orientation and flip of a placed circuit, with what its type supports.
#[derive(Debug, Clone, Copy, PartialEq, Eq, Structural)]
pub struct CircuitTransform {
    pub support: CircuitTransformSupport,
    pub dir: Direction4,
    pub flip: bool,
}

impl CircuitTransform {
    /// The flip that applies, if the flag is set and the type supports it.
    pub open spec fn active_flip(self, support: Option<TransformSupport>) -> Option<FlipType> {
        if self.flip {
            self.support.flip_type_spec(support)
        } else {
            None
        }
    }

    /// The turn from the type's default direction to `self.dir`, if rotation applies.
    pub open spec fn active_turn(self, support: Option<TransformSupport>) -> Option<Direction4> {
        match self.support.rotation_dir_spec(support) {
            None => None,
            Some(d) => Some(self.dir.relative_to_spec(d)),
        }
    }

    pub open spec fn transform_size_spec(self, size: Vec2usize, support: Option<TransformSupport>) -> Vec2usize {
        match self.support.rotation_dir_spec(support) {
            None => size,
            Some(d) => if d.is_vertical_spec() == self.dir.is_vertical_spec() {
                size
            } else {
                size.swap_spec()
            },
        }
    }

    /// Flip first, inside the untransformed footprint, then turn.
    pub open spec fn transform_pos_spec(
        self,
        size: Vec2usize,
        pos: Vec2usize,
        support: Option<TransformSupport>,
    ) -> Vec2usize {
        let flipped = flip_pos_spec(pos, size, self.active_flip(support));
        match self.active_turn(support) {
            None => flipped,
            Some(turn) => rotate_pos_spec(flipped, self.transform_size_spec(size, support), turn),
        }
    }

    /// Turn back, then undo the flip; `size` is the untransformed size.
    pub open spec fn backtransform_pos_spec(
        self,
        size: Vec2usize,
        pos: Vec2usize,
        support: Option<TransformSupport>,
    ) -> Vec2usize {
        let turned = match self.support.rotation_dir_spec(support) {
            None => pos,
            Some(d) => rotate_pos_spec(pos, size, d.relative_to_spec(self.dir)),
        };
        flip_pos_spec(turned, size, self.active_flip(support))
    }

    pub open spec fn transform_dir_spec(self, dir: Direction8, support: Option<TransformSupport>) -> Direction8 {
        let flipped = match self.active_flip(support) {
            None => dir,
            Some(FlipType::Vertical) => dir.mirrored_vertically_spec(),
            Some(FlipType::Horizontal) => dir.mirrored_horizontally_spec(),
            Some(FlipType::Both) => dir.inverted_spec(),
        };
        match self.active_turn(support) {
            None => flipped,
            Some(turn) => flipped.rotated_spec(turn),
        }
    }

    fn flip_in_effect(&self, support: Option<TransformSupport>) -> (r: Option<FlipType>)
        ensures
            r == self.active_flip(support),
    {
        if self.flip {
            self.support.flip_type(support)
        } else {
            None
        }
    }

    /// Footprint size once transformed: the axes swap when the circuit is
    /// turned across its default orientation.
    pub fn transform_size(&self, size: Vec2usize, support: Option<TransformSupport>) -> (r: Vec2usize)
        ensures
            r == self.transform_size_spec(size, support),
    {
        let default_dir = match self.support.rotation_default_dir(support) {
            Some(d) => d,
            None => return size,
        };
        if default_dir.is_vertical() == self.dir.is_vertical() {
            size
        } else {
            size.swapped()
        }
    }

    /// Position in the placed footprint of the local cell `pos`.
    pub fn transform_pos(&self, size: Vec2usize, pos: Vec2usize, support: Option<TransformSupport>) -> (r: Vec2usize)
        requires
            in_bounds(pos, size),
        ensures
            r == self.transform_pos_spec(size, pos, support),
            in_bounds(r, self.transform_size_spec(size, support)),
    {
        let flipped_pos = flip_pos(pos, size, self.flip_in_effect(support));
        match self.support.rotation_default_dir(support) {
            None => flipped_pos,
            Some(default_dir) => {
                let dir = self.dir.rotated_counterclockwise_by(default_dir);
                let transformed_size = self.transform_size(size, support);
                proof {
                    lemma_turn_size(self.dir, default_dir, size);
                }
                rotate_pos(flipped_pos, transformed_size, dir)
            },
        }
    }

    /// Local cell of the placed position `pos`; `size` is the untransformed size.
    pub fn backtransform_pos(&self, size: Vec2usize, pos: Vec2usize, support: Option<TransformSupport>) -> (r: Vec2usize)
        requires
            in_bounds(pos, self.transform_size_spec(size, support)),
        ensures
            r == self.backtransform_pos_spec(size, pos, support),
            in_bounds(r, size),
    {
        let rotated_pos = match self.support.rotation_default_dir(support) {
            None => pos,
            Some(default_dir) => {
                let dir = default_dir.rotated_counterclockwise_by(self.dir);
                proof {
                    lemma_turn_size(default_dir, self.dir, size);
                }
                rotate_pos(pos, size, dir)
            },
        };
        flip_pos(rotated_pos, size, self.flip_in_effect(support))
    }

    /// Pin direction once transformed: flipped first, then turned.
    pub fn transform_dir(&self, dir: Direction8, support: Option<TransformSupport>) -> (r: Direction8)
        ensures
            r == self.transform_dir_spec(dir, support),
    {
        let flipped = match self.flip_in_effect(support) {
            None => dir,
            Some(FlipType::Vertical) => dir.mirrored_vertically(),
            Some(FlipType::Horizontal) => dir.mirrored_horizontally(),
            Some(FlipType::Both) => dir.inverted(),
        };
        match self.support.rotation_default_dir(support) {
            None => flipped,
            Some(default_dir) => {
                let turn = self.dir.rotated_counterclockwise_by(default_dir);
                flipped.rotated_counterclockwise_by(turn)
            },
        }
    }
}

/// Turning across the default orientation is what swaps the footprint's axes.
proof fn lemma_turn_size(a: Direction4, b: Direction4, size: Vec2usize)
    ensures
        rotated_size_spec(size, a.relative_to_spec(b)) == (if a.is_vertical_spec() == b.is_vertical_spec() {
            size
        } else {
            size.swap_spec()
        }),
        rotated_size_spec(size, a.relative_to_spec(b)) == rotated_size_spec(size, b.relative_to_spec(a)),
{
}

proof fn lemma_flip_involution(p: Vec2usize, size: Vec2usize, flip: Option<FlipType>)
    requires
        in_bounds(p, size),
    ensures
        flip_pos_spec(flip_pos_spec(p, size, flip), size, flip) == p,
        in_bounds(flip_pos_spec(p, size, flip), size),
{
}

/// Turning by `a - b` and then by `b - a` gives back the cell.
proof fn lemma_rotate_round_trip(p: Vec2usize, size: Vec2usize, a: Direction4, b: Direction4)
    requires
        in_bounds(p, size),
    ensures
        rotate_pos_spec(
            rotate_pos_spec(p, rotated_size_spec(size, a.relative_to_spec(b)), a.relative_to_spec(b)),
            size,
            b.relative_to_spec(a),
        ) == p,
{
}

/// For every supported rotation and flip, and every cell inside the
/// footprint, transforming a position and then transforming it back
/// returns the position it started from.
pub proof fn lemma_backtransform_inverts_transform(
    t: CircuitTransform,
    size: Vec2usize,
    p: Vec2usize,
    support: Option<TransformSupport>,
)
    requires
        in_bounds(p, size),
    ensures
        in_bounds(t.transform_pos_spec(size, p, support), t.transform_size_spec(size, support)),
        t.backtransform_pos_spec(size, t.transform_pos_spec(size, p, support), support) == p,
{
    lemma_flip_involution(p, size, t.active_flip(support));
    let flipped = flip_pos_spec(p, size, t.active_flip(support));
    match t.support.rotation_dir_spec(support) {
        None => {},
        Some(d) => {
            let turn = t.dir.relative_to_spec(d);
            let tsize = t.transform_size_spec(size, support);
            lemma_turn_size(t.dir, d, size);
            assert(tsize == rotated_size_spec(size, turn));
            assert(rotated_size_spec(tsize, turn) == size);
            let r = rotate_pos_spec(flipped, tsize, turn);
            assert(t.transform_pos_spec(size, p, support) == r);
            lemma_rotate_in_bounds(flipped, tsize, turn);
            lemma_rotate_round_trip(flipped, size, t.dir, d);
            assert(rotate_pos_spec(r, size, d.relative_to_spec(t.dir)) == flipped);
        },
    }
}

proof fn lemma_rotate_in_bounds(p: Vec2usize, target: Vec2usize, turn: Direction4)
    requires
        in_bounds(p, rotated_size_spec(target, turn)),
    ensures
        in_bounds(rotate_pos_spec(p, target, turn), target),
{
}

/// Grid step of a direction: `Up` is towards smaller `y`, `Left` towards
/// smaller `x`.
pub open spec fn step(d: Direction8) -> (int, int) {
    match d {
        Direction8::Up => (0, -1),
        Direction8::UpLeft => (-1, -1),
        Direction8::Left => (-1, 0),
        Direction8::DownLeft => (-1, 1),
        Direction8::Down => (0, 1),
        Direction8::DownRight => (1, 1),
        Direction8::Right => (1, 0),
        Direction8::UpRight => (1, -1),
    }
}

/// `q` is one step from `p` in direction `d`.
pub open spec fn is_neighbor(p: Vec2usize, q: Vec2usize, d: Direction8) -> bool {
    q.x == p.x + step(d).0 && q.y == p.y + step(d).1
}

/// The mirror images and quarter turns of each direction, spelled out.
proof fn lemma_direction_images(d: Direction8)
    ensures
        step(d.mirrored_vertically_spec()) == (step(d).0, -step(d).1),
        step(d.mirrored_horizontally_spec()) == (-step(d).0, step(d).1),
        step(d.inverted_spec()) == (-step(d).0, -step(d).1),
        step(d.rotated_spec(Direction4::Up)) == step(d),
        step(d.rotated_spec(Direction4::Left)) == (step(d).1, -step(d).0),
        step(d.rotated_spec(Direction4::Down)) == (-step(d).0, -step(d).1),
        step(d.rotated_spec(Direction4::Right)) == (-step(d).1, step(d).0),
{
    match d {
        Direction8::Up => {},
        Direction8::UpLeft => {},
        Direction8::Left => {},
        Direction8::DownLeft => {},
        Direction8::Down => {},
        Direction8::DownRight => {},
        Direction8::Right => {},
        Direction8::UpRight => {},
    }
}

proof fn lemma_flip_step(p: Vec2usize, q: Vec2usize, d: Direction8, size: Vec2usize, flip: Option<FlipType>)
    requires
        in_bounds(p, size),
        in_bounds(q, size),
        is_neighbor(p, q, d),
    ensures
        is_neighbor(
            flip_pos_spec(p, size, flip),
            flip_pos_spec(q, size, flip),
            match flip {
                None => d,
                Some(FlipType::Vertical) => d.mirrored_vertically_spec(),
                Some(FlipType::Horizontal) => d.mirrored_horizontally_spec(),
                Some(FlipType::Both) => d.inverted_spec(),
            },
        ),
{
    lemma_direction_images(d);
}

proof fn lemma_rotate_step(p: Vec2usize, q: Vec2usize, d: Direction8, target: Vec2usize, turn: Direction4)
    requires
        in_bounds(p, rotated_size_spec(target, turn)),
        in_bounds(q, rotated_size_spec(target, turn)),
        is_neighbor(p, q, d),
    ensures
        is_neighbor(rotate_pos_spec(p, target, turn), rotate_pos_spec(q, target, turn), d.rotated_spec(turn)),
{
    lemma_direction_images(d);
}

/// Pin directions turn with the positions: when `q` is the neighbour of
/// `p` in direction `d` inside the footprint, the transformed `q` is the
/// neighbour of the transformed `p` in the transformed direction.
pub proof fn lemma_transform_dir_follows_positions(
    t: CircuitTransform,
    size: Vec2usize,
    p: Vec2usize,
    q: Vec2usize,
    d: Direction8,
    support: Option<TransformSupport>,
)
    requires
        in_bounds(p, size),
        in_bounds(q, size),
        is_neighbor(p, q, d),
    ensures
        is_neighbor(
            t.transform_pos_spec(size, p, support),
            t.transform_pos_spec(size, q, support),
            t.transform_dir_spec(d, support),
        ),
{
    let flip = t.active_flip(support);
    lemma_flip_step(p, q, d, size, flip);
    lemma_flip_involution(p, size, flip);
    lemma_flip_involution(q, size, flip);
    let fp = flip_pos_spec(p, size, flip);
    let fq = flip_pos_spec(q, size, flip);
    let fd = match flip {
        None => d,
        Some(FlipType::Vertical) => d.mirrored_vertically_spec(),
        Some(FlipType::Horizontal) => d.mirrored_horizontally_spec(),
        Some(FlipType::Both) => d.inverted_spec(),
    };
    match t.support.rotation_dir_spec(support) {
        None => {},
        Some(dd) => {
            let turn = t.dir.relative_to_spec(dd);
            lemma_turn_size(t.dir, dd, size);
            let target = t.transform_size_spec(size, support);
            assert(rotated_size_spec(target, turn) == size) by {
                lemma_turn_size(t.dir, dd, size);
            }
            lemma_rotate_step(fp, fq, fd, target, turn);
        },
    }
}

} // verus!
