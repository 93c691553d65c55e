//! The growth graph and the skeleton that is made of it.
//!
//! While a tree grows it is a `MetamerNode` whose two buds may each own a
//! child node. When growth has ended the graph is turned, once, into a
//! `TreeNode` skeleton that keeps only what has shot.
use crate::fixed::Fixed;
use crate::vector::Vec3;
use vstd::prelude::*;

verus! {

/// The number of a bud. Numbers are handed out in order of creation, from 0.
#[derive(Clone, Copy, Debug, PartialEq, Eq, Structural)]
pub struct BudId(pub usize);

/// What has become of a bud.
#[derive(Clone, Copy, Debug, PartialEq, Eq, Structural)]
pub enum BudFate {
    /// It may still grow.
    Dormant,
    /// It has grown into a child node.
    Shoot,
    /// It was pruned and stays so.
    Dead,
}

impl Default for BudFate {
    fn default() -> (r: Self)
        ensures
            r == BudFate::Dormant,
    {
        BudFate::Dormant
    }
}

/// A growth point of a node.
#[derive(Debug, PartialEq, Eq)]
pub struct Bud {
    pub direction: Vec3,
    pub id: BudId,
    pub branch_node: Option<Box<MetamerNode>>,
    pub fate: BudFate,
}

/// A growth unit: a position, a width and two buds.
#[derive(Debug, PartialEq, Eq)]
pub struct MetamerNode {
    pub global_position: Vec3,
    pub width: Fixed,
    pub main_bud: Bud,
    pub axillary_bud: Bud,
}

/// A node of the finished skeleton.
#[derive(Debug, PartialEq, Eq)]
pub struct TreeNode {
    pub global_position: Vec3,
    pub width: Fixed,
    pub main_branch: Option<Box<TreeNode>>,
    pub lateral_branch: Option<Box<TreeNode>>,
}

/// The finished skeleton.
#[derive(Debug, PartialEq, Eq)]
pub struct TreeStructure {
    pub root: TreeNode,
}

/// What one iteration works out for one bud.
#[derive(Clone, Copy, Debug, PartialEq, Eq, Structural)]
pub struct BudLocalEnvironment {
    pub optimal_growth_direction: Vec3,
    pub resource: Fixed,
    pub light_exposure: Fixed,
    pub subtree_size: usize,
}

impl BudLocalEnvironment {
    /// The record that every bud starts an iteration with.
    pub open spec fn blank() -> BudLocalEnvironment {
        BudLocalEnvironment {
            optimal_growth_direction: Vec3::zero(),
            resource: Fixed { raw: 0 },
            light_exposure: Fixed { raw: 0 },
            subtree_size: 0,
        }
    }

    /// The record with another optimal growth direction.
    pub open spec fn with_direction(self, direction: Vec3) -> BudLocalEnvironment {
        BudLocalEnvironment { optimal_growth_direction: direction, ..self }
    }

    /// The record with another light exposure.
    pub open spec fn with_light(self, light: Fixed) -> BudLocalEnvironment {
        BudLocalEnvironment { light_exposure: light, ..self }
    }

    /// The record with another resource.
    pub open spec fn with_resource(self, resource: Fixed) -> BudLocalEnvironment {
        BudLocalEnvironment { resource, ..self }
    }

    /// The record with another subtree size.
    pub open spec fn with_size(self, size: usize) -> BudLocalEnvironment {
        BudLocalEnvironment { subtree_size: size, ..self }
    }
}

impl Default for BudLocalEnvironment {
    fn default() -> (r: Self)
        ensures
            r == BudLocalEnvironment::blank(),
    {
        BudLocalEnvironment {
            optimal_growth_direction: Vec3::zero(),
            resource: Fixed { raw: 0 },
            light_exposure: Fixed { raw: 0 },
            subtree_size: 0,
        }
    }
}

impl Default for BudId {
    fn default() -> (r: Self)
        ensures
            r == BudId(0),
    {
        BudId(0)
    }
}

impl Default for Bud {
    /// A dormant bud without a direction, a child or a number of its own.
    fn default() -> (r: Self)
        ensures
            r == Bud::fresh(Vec3::zero(), BudId(0)),
    {
        Bud { direction: Vec3::zero(), id: BudId(0), branch_node: None, fate: BudFate::Dormant }
    }
}

impl Default for MetamerNode {
    /// A node at the origin, without width, with two default buds.
    fn default() -> (r: Self)
        ensures
            r == (MetamerNode {
                global_position: Vec3::zero(),
                width: Fixed { raw: 0 },
                main_bud: Bud::fresh(Vec3::zero(), BudId(0)),
                axillary_bud: Bud::fresh(Vec3::zero(), BudId(0)),
            }),
    {
        MetamerNode {
            global_position: Vec3::zero(),
            width: Fixed { raw: 0 },
            main_bud: Bud::default(),
            axillary_bud: Bud::default(),
        }
    }
}

impl Default for TreeNode {
    /// A node at the origin, without width or branches.
    fn default() -> (r: Self)
        ensures
            r == (TreeNode {
                global_position: Vec3::zero(),
                width: Fixed { raw: 0 },
                main_branch: None,
                lateral_branch: None,
            }),
    {
        TreeNode {
            global_position: Vec3::zero(),
            width: Fixed { raw: 0 },
            main_branch: None,
            lateral_branch: None,
        }
    }
}

impl Default for TreeStructure {
    /// The skeleton of a single default node.
    fn default() -> (r: Self)
        ensures
            r.root == (TreeNode {
                global_position: Vec3::zero(),
                width: Fixed { raw: 0 },
                main_branch: None,
                lateral_branch: None,
            }),
    {
        TreeStructure { root: TreeNode::default() }
    }
}

impl Bud {
    /// A dormant bud without a child.
    pub open spec fn fresh(direction: Vec3, id: BudId) -> Bud {
        Bud { direction, id, branch_node: None, fate: BudFate::Dormant }
    }

    /// At the bud and below it, a bud that has shot owns a child and a
    /// dormant bud owns none. A dead bud may keep the branch that it died
    /// with.
    pub open spec fn shaped(self) -> bool
        decreases self,
    {
        match self.branch_node {
            Some(child) => self.fate != BudFate::Dormant && child.shaped(),
            None => self.fate != BudFate::Shoot,
        }
    }

    /// The bud and all below it have numbers under `bound`.
    pub open spec fn numbered(self, bound: nat) -> bool
        decreases self,
    {
        &&& self.id.0 < bound
        &&& match self.branch_node {
            Some(child) => child.numbered(bound),
            None => true,
        }
    }

    /// Shaped, and numbered under `bound`.
    pub open spec fn well_formed(self, bound: nat) -> bool {
        self.shaped() && self.numbered(bound)
    }

    /// The numbers of the bud and of all buds below it.
    pub open spec fn ids(self) -> Set<nat>
        decreases self,
    {
        match self.branch_node {
            Some(child) => child.ids().insert(self.id.0 as nat),
            None => set![self.id.0 as nat],
        }
    }

    /// No number occurs twice at or below the bud.
    pub open spec fn distinct(self) -> bool
        decreases self,
    {
        match self.branch_node {
            Some(child) => child.distinct() && !child.ids().contains(self.id.0 as nat),
            None => true,
        }
    }

    /// The numbers of the buds at or below the bud that are alive and that
    /// the growth reaches: the bud itself unless it is dead, and where it has
    /// shot, the live buds of its child.
    pub open spec fn live_ids(self) -> Set<nat>
        decreases self,
    {
        match self.fate {
            BudFate::Dead => Set::empty(),
            BudFate::Dormant => set![self.id.0 as nat],
            BudFate::Shoot => match self.branch_node {
                Some(child) => child.live_ids().insert(self.id.0 as nat),
                None => set![self.id.0 as nat],
            },
        }
    }

    /// The number of nodes that have shot below the bud: none unless it has
    /// shot; else its child and what has shot below the two buds of the
    /// child.
    pub open spec fn shot_count(self) -> nat
        decreases self,
    {
        match self.branch_node {
            Some(child) => if self.fate == BudFate::Shoot {
                1 + child.main_bud.shot_count() + child.axillary_bud.shot_count()
            } else {
                0
            },
            None => 0,
        }
    }

    /// The branch of the skeleton that the bud stands for: the skeleton of its
    /// child where it has shot, none otherwise.
    pub open spec fn skeleton_branch(self) -> Option<Box<TreeNode>>
        decreases self,
    {
        match self.branch_node {
            Some(child) => if self.fate == BudFate::Shoot {
                Some(Box::new(child.skeleton()))
            } else {
                None
            },
            None => None,
        }
    }
}

impl MetamerNode {
    /// At the node and below it, a bud that has shot owns a child and a
    /// dormant bud owns none.
    pub open spec fn shaped(self) -> bool
        decreases self,
    {
        self.main_bud.shaped() && self.axillary_bud.shaped()
    }

    /// All buds at the node and below it have numbers under `bound`.
    pub open spec fn numbered(self, bound: nat) -> bool
        decreases self,
    {
        self.main_bud.numbered(bound) && self.axillary_bud.numbered(bound)
    }

    /// Shaped, and numbered under `bound`.
    pub open spec fn well_formed(self, bound: nat) -> bool {
        self.shaped() && self.numbered(bound)
    }

    /// The numbers of all buds at or below the node.
    pub open spec fn ids(self) -> Set<nat>
        decreases self,
    {
        self.main_bud.ids().union(self.axillary_bud.ids())
    }

    /// No number occurs twice at or below the node.
    pub open spec fn distinct(self) -> bool
        decreases self,
    {
        &&& self.main_bud.distinct()
        &&& self.axillary_bud.distinct()
        &&& self.main_bud.ids().disjoint(self.axillary_bud.ids())
    }

    /// The numbers of the live buds at or below the node that the growth
    /// reaches.
    pub open spec fn live_ids(self) -> Set<nat>
        decreases self,
    {
        self.main_bud.live_ids().union(self.axillary_bud.live_ids())
    }

    /// The skeleton of the node: its position and width, and the branches of
    /// its two buds.
    pub open spec fn skeleton(self) -> TreeNode
        decreases self,
    {
        TreeNode {
            global_position: self.global_position,
            width: self.width,
            main_branch: self.main_bud.skeleton_branch(),
            lateral_branch: self.axillary_bud.skeleton_branch(),
        }
    }

    /// The distance from the node to `point`.
    pub open spec fn spec_distance_to(self, point: Vec3) -> Fixed {
        self.global_position.distance(point)
    }

    /// How far the node is from `environment_point`.
    pub fn distance_to(&self, environment_point: &Vec3) -> (r: Fixed)
        ensures
            r == self.spec_distance_to(*environment_point),
            r.raw >= 0,
    {
        self.global_position.distance(*environment_point)
    }
}

/// The graph of a run: well formed under `bound`, no number twice, and every
/// number under `bound` in use.
pub open spec fn dense(root: MetamerNode, bound: nat) -> bool {
    &&& root.well_formed(bound)
    &&& root.distinct()
    &&& root.ids() =~= Set::new(|i: nat| i < bound)
}

/// The numbers from `from` up to, not including, `to`.
pub open spec fn span(from: nat, to: nat) -> Set<nat> {
    Set::new(|i: nat| from <= i < to)
}

/// A bud numbered under `low` is numbered under any `high` above it.
pub proof fn lemma_bud_numbered_higher(bud: Bud, low: nat, high: nat)
    requires
        bud.numbered(low),
        low <= high,
    ensures
        bud.numbered(high),
    decreases bud,
{
    match bud.branch_node {
        Some(child) => {
            lemma_bud_numbered_higher(child.main_bud, low, high);
            lemma_bud_numbered_higher(child.axillary_bud, low, high);
        },
        None => {},
    }
}

/// The numbers of a bud numbered under `bound` are under `bound`.
pub proof fn lemma_bud_ids_bounded(bud: Bud, bound: nat)
    requires
        bud.numbered(bound),
    ensures
        forall|i: nat| bud.ids().contains(i) ==> i < bound,
    decreases bud,
{
    match bud.branch_node {
        Some(child) => {
            lemma_bud_ids_bounded(child.main_bud, bound);
            lemma_bud_ids_bounded(child.axillary_bud, bound);
            assert forall|i: nat| bud.ids().contains(i) implies i < bound by {
                if i != bud.id.0 as nat {
                    assert(child.ids().contains(i));
                    assert(child.main_bud.ids().contains(i) || child.axillary_bud.ids().contains(i));
                }
            }
        },
        None => {},
    }
}

/// The live buds of a bud are among its buds.
pub proof fn lemma_live_ids_are_ids(bud: Bud)
    ensures
        bud.live_ids().subset_of(bud.ids()),
    decreases bud,
{
    match bud.branch_node {
        Some(child) => {
            lemma_live_ids_are_ids(child.main_bud);
            lemma_live_ids_are_ids(child.axillary_bud);
        },
        None => {},
    }
}

fn branch_of(bud: Bud) -> (r: Option<Box<TreeNode>>)
    requires
        bud.shaped(),
    ensures
        r == bud.skeleton_branch(),
    decreases bud,
{
    match bud.branch_node {
        Some(child) => {
            match bud.fate {
                BudFate::Shoot => Some(Box::new(TreeNode::from(*child))),
                _ => None,
            }
        },
        None => None,
    }
}

impl TreeNode {
    /// Turns a growth graph into its skeleton: every bud that has shot
    /// becomes a branch, every other bud none. The graph has to be shaped: a
    /// bud that has shot without owning a child is a defect of the caller,
    /// and no skeleton is made of it.
    pub fn from(node: MetamerNode) -> (r: TreeNode)
        requires
            node.shaped(),
        ensures
            r == node.skeleton(),
        decreases node,
    {
        TreeNode {
            global_position: node.global_position,
            width: node.width,
            main_branch: branch_of(node.main_bud),
            lateral_branch: branch_of(node.axillary_bud),
        }
    }
}

impl TreeNode {
    /// How many nodes the skeleton has.
    pub open spec fn node_count(self) -> nat
        decreases self,
    {
        1 + (match self.main_branch {
            Some(child) => child.node_count(),
            None => 0,
        }) + (match self.lateral_branch {
            Some(child) => child.node_count(),
            None => 0,
        })
    }

    /// How many edges the skeleton has.
    pub open spec fn edge_count(self) -> nat
        decreases self,
    {
        (match self.main_branch {
            Some(child) => 1 + child.edge_count(),
            None => 0,
        }) + (match self.lateral_branch {
            Some(child) => 1 + child.edge_count(),
            None => 0,
        })
    }
}

/// A skeleton has one edge less than it has nodes: every node but the root
/// hangs on one edge.
pub proof fn lemma_edges_counted(node: TreeNode)
    ensures
        node.edge_count() + 1 == node.node_count(),
    decreases node,
{
    match node.main_branch {
        Some(child) => {
            lemma_edges_counted(*child);
        },
        None => {},
    }
    match node.lateral_branch {
        Some(child) => {
            lemma_edges_counted(*child);
        },
        None => {},
    }
}

} // verus!
