//! The HUD renderer: it puts the entities of a registry into the order of
//! their depths and says what is drawn, one call after the other.

use vstd::prelude::*;
use crate::hud::depth_entity::DepthEntityView;
use crate::hud::entity::EntityView;
use crate::hud::{DepthEntity, Entity, HudUniformInterface};
use crate::registry::EntityRegistry;
use crate::single::{lemma_less_than_irreflexive, lemma_less_than_transitive, Single};

verus! {

/// Where `p` comes to stand in `order`: behind the last entity that is not
/// of lesser depth than `p`.
pub open spec fn insert_point(order: Seq<int>, depths: Seq<Single>, p: int) -> int
    decreases order.len(),
{
    if order.len() > 0 && depths[order.last()].spec_less_than(depths[p]) {
        insert_point(order.drop_last(), depths, p)
    } else {
        order.len() as int
    }
}

/// `order` with `p` put in at position `q`.
pub open spec fn placed(order: Seq<int>, q: int, p: int) -> Seq<int> {
    order.take(q).push(p) + order.skip(q)
}

/// The order in which the first `n` entities are drawn, as positions in
/// `depths`: each entity in turn goes before the entities of lesser depth
/// that stand last in the order so far.
pub open spec fn draw_order_of_first(depths: Seq<Single>, n: int) -> Seq<int>
    decreases n,
{
    if n <= 0 {
        Seq::empty()
    } else {
        let before = draw_order_of_first(depths, n - 1);
        placed(before, insert_point(before, depths, n - 1), n - 1)
    }
}

/// The order in which entities of these depths are drawn, as positions in
/// `depths`.
pub open spec fn draw_order(depths: Seq<Single>) -> Seq<int> {
    draw_order_of_first(depths, depths.len() as int)
}

/// Whether `order` names each of the positions `0..n` once.
pub open spec fn is_permutation(order: Seq<int>, n: int) -> bool {
    &&& order.len() == n
    &&& forall|i: int| 0 <= i < order.len() ==> 0 <= #[trigger] order[i] < n
    &&& order.no_duplicates()
}

/// Whether an entity is drawn before one that was registered before it
/// only if its depth is greater.
pub open spec fn overtakes_only_deeper(order: Seq<int>, depths: Seq<Single>) -> bool {
    forall|i: int, j: int|
        0 <= i < j < order.len() && #[trigger] order[i] > #[trigger] order[j] ==> depths[order[j]].spec_less_than(
            depths[order[i]],
        )
}

/// Whether no entity is drawn directly before one of greater depth.
pub open spec fn never_rises(order: Seq<int>, depths: Seq<Single>) -> bool {
    forall|i: int|
        0 <= i && i + 1 < order.len() ==> !depths[#[trigger] order[i]].spec_less_than(
            depths[order[i + 1]],
        )
}

/// Whether no entity is drawn before one of greater depth.
pub open spec fn descends(order: Seq<int>, depths: Seq<Single>) -> bool {
    forall|i: int, j: int|
        0 <= i < j < order.len() ==> !depths[#[trigger] order[i]].spec_less_than(
            depths[#[trigger] order[j]],
        )
}

/// The insert point lies in the order; all that stand behind it are of
/// lesser depth than `p`, and what stands directly before it is not.
pub proof fn lemma_insert_point(order: Seq<int>, depths: Seq<Single>, p: int)
    ensures
        0 <= insert_point(order, depths, p) <= order.len(),
        forall|k: int|
            insert_point(order, depths, p) <= k < order.len() ==> depths[#[trigger] order[k]].spec_less_than(
                depths[p],
            ),
        insert_point(order, depths, p) > 0 ==> !depths[order[insert_point(order, depths, p)
            - 1]].spec_less_than(depths[p]),
    decreases order.len(),
{
    if order.len() > 0 && depths[order.last()].spec_less_than(depths[p]) {
        lemma_insert_point(order.drop_last(), depths, p);
        let q = insert_point(order.drop_last(), depths, p);
        assert forall|k: int| q <= k < order.len() implies depths[#[trigger] order[k]].spec_less_than(
            depths[p],
        ) by {
            if k < order.len() - 1 {
                assert(order.drop_last()[k] == order[k]);
            }
        }
        if q > 0 {
            assert(order.drop_last()[q - 1] == order[q - 1]);
        }
    }
}

/// The insert point is the one position that all of lesser depth than `p`
/// stand behind and that does not follow one of lesser depth.
pub proof fn lemma_insert_point_unique(order: Seq<int>, depths: Seq<Single>, p: int, q: int)
    requires
        0 <= q <= order.len(),
        forall|k: int| q <= k < order.len() ==> depths[#[trigger] order[k]].spec_less_than(depths[p]),
        q > 0 ==> !depths[order[q - 1]].spec_less_than(depths[p]),
    ensures
        insert_point(order, depths, p) == q,
    decreases order.len(),
{
    if q < order.len() {
        assert(depths[order[order.len() - 1]].spec_less_than(depths[p]));
        let shorter = order.drop_last();
        assert forall|k: int| q <= k < shorter.len() implies depths[#[trigger] shorter[k]].spec_less_than(
            depths[p],
        ) by {
            assert(shorter[k] == order[k]);
        }
        if q > 0 {
            assert(shorter[q - 1] == order[q - 1]);
        }
        lemma_insert_point_unique(shorter, depths, p, q);
    }
}

/// The order of the first `n` entities names each of them once; an entity
/// overtakes only entities of lesser depth; and no entity stands directly
/// before one of greater depth.
pub proof fn lemma_draw_order_of_first(depths: Seq<Single>, n: int)
    requires
        0 <= n <= depths.len(),
    ensures
        is_permutation(draw_order_of_first(depths, n), n),
        overtakes_only_deeper(draw_order_of_first(depths, n), depths),
        never_rises(draw_order_of_first(depths, n), depths),
    decreases n,
{
    if n > 0 {
        let before = draw_order_of_first(depths, n - 1);
        let p = n - 1;
        let q = insert_point(before, depths, p);
        let order = placed(before, q, p);
        lemma_draw_order_of_first(depths, n - 1);
        lemma_insert_point(before, depths, p);
        assert(order == draw_order_of_first(depths, n));
        assert(order.len() == n);
        assert forall|i: int| 0 <= i < order.len() implies #[trigger] order[i] == (if i < q {
            before[i]
        } else if i == q {
            p
        } else {
            before[i - 1]
        }) by {}
        assert(is_permutation(order, n)) by {
            assert forall|i: int, j: int|
                0 <= i < order.len() && 0 <= j < order.len() && i != j implies order[i]
                != order[j] by {
                let a = if i < q { i } else { i - 1 };
                let b = if j < q { j } else { j - 1 };
                if i != q && j != q {
                    assert(before[a] != before[b]);
                } else if i != q {
                    assert(before[a] < p);
                } else {
                    assert(before[b] < p);
                }
            }
        }
        assert(overtakes_only_deeper(order, depths)) by {
            assert forall|i: int, j: int|
                0 <= i < j < order.len() && #[trigger] order[i] > #[trigger] order[j] implies depths[order[j]].spec_less_than(
                depths[order[i]],
            ) by {
                if i == q {
                    assert(order[j] == before[j - 1]);
                } else if j == q {
                    let a = if i < q { i } else { i - 1 };
                    assert(before[a] < p);
                } else {
                    let a = if i < q { i } else { i - 1 };
                    let b = if j < q { j } else { j - 1 };
                    assert(before[a] > before[b]);
                }
            }
        }
        assert(never_rises(order, depths)) by {
            assert forall|i: int| 0 <= i && i + 1 < order.len() implies !depths[#[trigger] order[i]].spec_less_than(
                depths[order[i + 1]],
            ) by {
                if i + 1 == q {
                    assert(order[i] == before[q - 1]);
                } else if i == q {
                    assert(order[i + 1] == before[q]);
                    assert(depths[before[q]].spec_less_than(depths[p]));
                    if depths[p].spec_less_than(depths[before[q]]) {
                        lemma_less_than_transitive(depths[p], depths[before[q]], depths[p]);
                        lemma_less_than_irreflexive(depths[p]);
                    }
                } else {
                    let a = if i < q { i } else { i - 1 };
                    assert(order[i] == before[a]);
                    assert(order[i + 1] == before[a + 1]);
                }
            }
        }
    }
}

/// The draw order names each entity once; an entity overtakes only
/// entities of lesser depth, so that entities that cannot be ordered stay
/// as they were registered; and no entity stands directly before one of
/// greater depth.
pub proof fn lemma_draw_order(depths: Seq<Single>)
    ensures
        is_permutation(draw_order(depths), depths.len() as int),
        overtakes_only_deeper(draw_order(depths), depths),
        never_rises(draw_order(depths), depths),
{
    lemma_draw_order_of_first(depths, depths.len() as int);
}

/// Where no depth is a NaN, the draw order descends: no entity is drawn
/// before one of greater depth, and entities of the same depth are drawn
/// in the order in which they were registered.
pub proof fn lemma_draw_order_descends(depths: Seq<Single>)
    requires
        forall|i: int| 0 <= i < depths.len() ==> !(#[trigger] depths[i]).spec_is_nan(),
    ensures
        descends(draw_order(depths), depths),
        forall|i: int, j: int|
            0 <= i < j < depths.len() && depths[#[trigger] draw_order(depths)[i]].key()
                == depths[#[trigger] draw_order(depths)[j]].key() ==> draw_order(depths)[i]
                < draw_order(depths)[j],
{
    let order = draw_order(depths);
    lemma_draw_order(depths);
    assert forall|i: int, j: int| 0 <= i < j < order.len() implies !depths[#[trigger] order[i]].spec_less_than(
        depths[#[trigger] order[j]],
    ) by {
        lemma_descends_from(order, depths, i, j);
    }
    assert forall|i: int, j: int|
        0 <= i < j < depths.len() && depths[#[trigger] order[i]].key()
            == depths[#[trigger] order[j]].key() implies order[i] < order[j] by {
        if order[i] > order[j] {
            assert(depths[order[j]].spec_less_than(depths[order[i]]));
        }
        assert(order[i] != order[j]);
    }
}

/// In an order that never rises over depths without a NaN, the entity at
/// `i` is not of lesser depth than the one at a later `j`.
proof fn lemma_descends_from(order: Seq<int>, depths: Seq<Single>, i: int, j: int)
    requires
        forall|k: int| 0 <= k < depths.len() ==> !(#[trigger] depths[k]).spec_is_nan(),
        is_permutation(order, depths.len() as int),
        never_rises(order, depths),
        0 <= i < j < order.len(),
    ensures
        !depths[order[i]].spec_less_than(depths[order[j]]),
    decreases j - i,
{
    if i + 1 < j {
        lemma_descends_from(order, depths, i, j - 1);
        let a = depths[order[i]];
        let b = depths[order[j - 1]];
        let c = depths[order[j]];
        assert(!depths[order[j - 1]].spec_less_than(depths[order[j - 1 + 1]]));
        assert(!b.spec_less_than(c));
        assert(!a.spec_is_nan() && !b.spec_is_nan() && !c.spec_is_nan());
    } else {
        assert(!depths[order[i]].spec_less_than(depths[order[i + 1]]));
    }
}

/// How the colour of a fragment and the colour under it are combined.
#[derive(Clone, Copy, Debug, PartialEq, Eq, Structural)]
pub enum Equation {
    /// The sum of the two.
    Additive,
    /// The fragment minus what is under it.
    Subtract,
    /// What is under the fragment minus the fragment.
    ReverseSubtract,
    /// The lesser of the two.
    Min,
    /// The greater of the two.
    Max,
}

/// What a colour is multiplied with before the two are combined.
#[derive(Clone, Copy, Debug, PartialEq, Eq, Structural)]
pub enum Factor {
    One,
    Zero,
    SrcColor,
    SrcColorComplement,
    DestColor,
    DestColorComplement,
    SrcAlpha,
    SrcAlphaComplement,
    DstAlpha,
    DstAlphaComplement,
    SrcAlphaSaturate,
}

/// The blending of a render state: the equation, the factor of the
/// fragment and the factor of what is under it.
#[derive(Clone, Copy, Debug, PartialEq, Eq, Structural)]
pub struct Blending {
    pub equation: Equation,
    pub src: Factor,
    pub dst: Factor,
}

/// What one draw call draws.
#[derive(Clone, Copy, Debug, PartialEq, Eq, Structural)]
pub enum DrawTarget {
    /// The quad of the depth entity, over the depth map.
    DepthMap,
    /// The quad of the entity at this position in the registry.
    Entity(usize),
}

/// One draw call: what is drawn, and the values that the shaders read.
#[derive(Clone, Copy, Debug, PartialEq, Eq)]
pub struct DrawCall {
    pub target: DrawTarget,
    pub uniforms: HudUniformInterface,
}

/// The depths of the entities, one for one.
pub open spec fn depths_of(entities: Seq<Entity>) -> Seq<Single> {
    Seq::new(entities.len(), |i: int| entities[i]@.depth)
}

/// An interface in which nothing is set yet.
pub open spec fn unset_interface() -> HudUniformInterface {
    HudUniformInterface {
        pos: [0i32, 0i32],
        depth: Single::spec_zero(),
        scale: Single::spec_zero(),
        size: [0u32, 0u32],
        tex_size: [0u32, 0u32],
        depth_tex: false,
    }
}

/// The call that draws the depth entity: its texture is a depth map.
pub open spec fn depth_map_call(d: DepthEntityView, size: [u32; 2]) -> DrawCall {
    DrawCall {
        target: DrawTarget::DepthMap,
        uniforms: d.uniforms(HudUniformInterface { depth_tex: true, ..unset_interface() }, size),
    }
}

/// The call that draws the entity at position `p`: its texture is a colour
/// texture.
pub open spec fn entity_call(entity: EntityView, p: int, size: [u32; 2]) -> DrawCall {
    DrawCall {
        target: DrawTarget::Entity(p as usize),
        uniforms: entity.uniforms(HudUniformInterface { depth_tex: false, ..unset_interface() }, size),
    }
}

/// The calls that draw the entities in the order of their depths.
pub open spec fn entity_calls(entities: Seq<Entity>, size: [u32; 2]) -> Seq<DrawCall> {
    Seq::new(
        entities.len(),
        |i: int|
            entity_call(
                entities[draw_order(depths_of(entities))[i]]@,
                draw_order(depths_of(entities))[i],
                size,
            ),
    )
}

/// The calls of one HUD pass: the depth entity first, where there is one,
/// so that it lies under all others; then the entities from the greatest
/// depth to the least.
pub open spec fn draw_calls(entities: Seq<Entity>, size: [u32; 2], d: Option<DepthEntityView>) -> Seq<
    DrawCall,
> {
    match d {
        Some(d) => seq![depth_map_call(d, size)] + entity_calls(entities, size),
        None => entity_calls(entities, size),
    }
}

/// The positions of `depths` in the order in which their entities are
/// drawn.
pub fn sort_by_depth(depths: &[Single]) -> (order: Vec<usize>)
    ensures
        order@.len() == depths@.len(),
        draw_order(depths@).len() == depths@.len(),
        forall|i: int| 0 <= i < order@.len() ==> order@[i] as int == draw_order(depths@)[i],
{
    let n = depths.len();
    let mut order: Vec<usize> = Vec::new();
    let mut p: usize = 0;
    while p < n
        invariant
            p <= n,
            n == depths@.len(),
            order@.len() == p,
            draw_order_of_first(depths@, p as int).len() == p,
            forall|i: int|
                0 <= i < p ==> order@[i] as int == draw_order_of_first(depths@, p as int)[i],
        decreases n - p,
    {
        let ghost before = draw_order_of_first(depths@, p as int);
        proof {
            lemma_draw_order_of_first(depths@, p as int);
            assert forall|i: int| 0 <= i < p implies order@[i] < p by {
                assert(0 <= before[i] < p);
            }
        }
        order.push(p);
        let mut j: usize = p;
        while j > 0 && depths[order[j - 1]].less_than(depths[p])
            invariant
                j <= p,
                p < n,
                n == depths@.len(),
                order@.len() == p + 1,
                is_permutation(before, p as int),
                forall|i: int| 0 <= i <= p ==> order@[i] <= p,
                forall|i: int| 0 <= i < j ==> order@[i] as int == before[i],
                forall|i: int| j < i <= p ==> order@[i] as int == before[i - 1],
                forall|k: int|
                    j <= k < p ==> depths@[#[trigger] before[k]].spec_less_than(depths@[p as int]),
            decreases j,
        {
            let moved = order[j - 1];
            order[j] = moved;
            j -= 1;
        }
        order[j] = p;
        proof {
            lemma_insert_point_unique(before, depths@, p as int, j as int);
            let after = placed(before, j as int, p as int);
            assert(after == draw_order_of_first(depths@, p + 1));
            assert forall|i: int| 0 <= i < p + 1 implies order@[i] as int == after[i] by {}
        }
        p += 1;
    }
    proof {
        lemma_draw_order_of_first(depths@, n as int);
    }
    order
}

/// The HUD renderer. It blends what it draws over what is there by the
/// alpha of what it draws.
pub struct Renderer {
    render_st: Blending,
}

impl Renderer {
    /// The blending of the renderer.
    pub closed spec fn blending(&self) -> Blending {
        self.render_st
    }

    /// The renderer, with its blending: the fragment times its alpha plus
    /// what is under it times the rest.
    pub fn new() -> (renderer: Self)
        ensures
            renderer.blending() == (Blending {
                equation: Equation::Additive,
                src: Factor::SrcAlpha,
                dst: Factor::SrcAlphaComplement,
            }),
    {
        Renderer {
            render_st: Blending {
                equation: Equation::Additive,
                src: Factor::SrcAlpha,
                dst: Factor::SrcAlphaComplement,
            },
        }
    }

    /// The blending of the renderer.
    pub fn render_state(&self) -> (blending: Blending)
        ensures
            blending == self.blending(),
    {
        self.render_st
    }

    /// The draw calls of one HUD pass over a surface of `size` pixels, in
    /// the order in which they are issued. The registry and its entities
    /// stay as they are.
    pub fn render(
        &self,
        registry: &EntityRegistry<Entity>,
        size: &[u32; 2],
        d: Option<&DepthEntity>,
    ) -> (calls: Vec<DrawCall>)
        ensures
            calls@ == draw_calls(
                registry.entities(),
                *size,
                match d {
                    Some(d) => Some(d@),
                    None => None,
                },
            ),
    {
        let ordered = registry.values();
        let count = ordered.len();
        let mut depths: Vec<Single> = Vec::new();
        let mut i: usize = 0;
        while i < count
            invariant
                i <= count,
                count == ordered@.len(),
                count == registry.entities().len(),
                forall|k: int| 0 <= k < count ==> *ordered@[k] == registry.entities()[k],
                depths@.len() == i,
                forall|k: int| 0 <= k < i ==> depths@[k] == registry.entities()[k]@.depth,
            decreases count - i,
        {
            depths.push(ordered[i].get_depth());
            i += 1;
        }
        assert(depths@ =~= depths_of(registry.entities()));
        let order = sort_by_depth(depths.as_slice());
        proof {
            lemma_draw_order(depths@);
        }
        let mut iface = HudUniformInterface {
            pos: [0, 0],
            depth: Single::zero(),
            scale: Single::zero(),
            size: [0, 0],
            tex_size: [0, 0],
            depth_tex: false,
        };
        let mut calls: Vec<DrawCall> = Vec::new();
        if let Some(depth_entity) = d {
            iface.depth_tex = true;
            depth_entity.render(&mut iface, size);
            calls.push(DrawCall { target: DrawTarget::DepthMap, uniforms: iface });
        }
        let ghost first = calls@;
        let mut k: usize = 0;
        while k < count
            invariant
                k <= count,
                count == ordered@.len(),
                count == registry.entities().len(),
                order@.len() == count,
                depths@ == depths_of(registry.entities()),
                is_permutation(draw_order(depths@), count as int),
                forall|i: int| 0 <= i < count ==> order@[i] as int == draw_order(depths@)[i],
                forall|i: int| 0 <= i < count ==> *ordered@[i] == registry.entities()[i],
                calls@.len() == first.len() + k,
                forall|i: int| 0 <= i < first.len() ==> calls@[i] == first[i],
                forall|i: int|
                    0 <= i < k ==> calls@[first.len() + i] == entity_calls(
                        registry.entities(),
                        *size,
                    )[i],
            decreases count - k,
        {
            let at = order[k];
            assert(at as int == draw_order(depths@)[k as int]);
            assert(0 <= draw_order(depths@)[k as int] < count);
            iface.depth_tex = false;
            ordered[at].render(&mut iface, size);
            calls.push(DrawCall { target: DrawTarget::Entity(at), uniforms: iface });
            k += 1;
        }
        proof {
            let expected = draw_calls(
                registry.entities(),
                *size,
                match d {
                    Some(d) => Some(d@),
                    None => None,
                },
            );
            assert(calls@ =~= expected);
        }
        calls
    }
}

} // verus!
