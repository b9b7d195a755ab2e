use vstd::prelude::*;

verus! {

/// Tag naming the kind of a component.
#[derive(Clone, Copy, Debug, PartialEq, Eq, Structural, Hash)]
pub enum ComponentType {
    User,
    Movable,
    Position,
    Renderable,
    Hostile,
    Damage,
    Solid,
    Health,
    Hud,
    Custom,
}

/// Number of component kinds.
pub const KIND_COUNT: usize = 10;

impl ComponentType {
    /// The textual rendering of the tag (its variant name).
    pub open spec fn spec_name(self) -> Seq<char> {
        match self {
            ComponentType::User => "User"@,
            ComponentType::Movable => "Movable"@,
            ComponentType::Position => "Position"@,
            ComponentType::Renderable => "Renderable"@,
            ComponentType::Hostile => "Hostile"@,
            ComponentType::Damage => "Damage"@,
            ComponentType::Solid => "Solid"@,
            ComponentType::Health => "Health"@,
            ComponentType::Hud => "Hud"@,
            ComponentType::Custom => "Custom"@,
        }
    }

    /// Position of the tag when the names are sorted alphabetically:
    /// Custom, Damage, Health, Hostile, Hud, Movable, Position, Renderable, Solid, User.
    pub open spec fn rank(self) -> nat {
        match self {
            ComponentType::Custom => 0,
            ComponentType::Damage => 1,
            ComponentType::Health => 2,
            ComponentType::Hostile => 3,
            ComponentType::Hud => 4,
            ComponentType::Movable => 5,
            ComponentType::Position => 6,
            ComponentType::Renderable => 7,
            ComponentType::Solid => 8,
            ComponentType::User => 9,
        }
    }

    /// The tag of a given alphabetical rank.
    pub open spec fn spec_of_rank(r: nat) -> ComponentType {
        if r == 0 {
            ComponentType::Custom
        } else if r == 1 {
            ComponentType::Damage
        } else if r == 2 {
            ComponentType::Health
        } else if r == 3 {
            ComponentType::Hostile
        } else if r == 4 {
            ComponentType::Hud
        } else if r == 5 {
            ComponentType::Movable
        } else if r == 6 {
            ComponentType::Position
        } else if r == 7 {
            ComponentType::Renderable
        } else if r == 8 {
            ComponentType::Solid
        } else {
            ComponentType::User
        }
    }

    /// Deterministic string rendering of the tag.
    pub fn name(&self) -> (r: &'static str)
        ensures
            r@ == self.spec_name(),
    {
        match self {
            ComponentType::User => "User",
            ComponentType::Movable => "Movable",
            ComponentType::Position => "Position",
            ComponentType::Renderable => "Renderable",
            ComponentType::Hostile => "Hostile",
            ComponentType::Damage => "Damage",
            ComponentType::Solid => "Solid",
            ComponentType::Health => "Health",
            ComponentType::Hud => "Hud",
            ComponentType::Custom => "Custom",
        }
    }

    /// The tag's name as an owned string.
    pub fn to_text(&self) -> (r: String)
        ensures
            r@ == self.spec_name(),
    {
        String::from_str(self.name())
    }

    pub fn rank_of(&self) -> (r: usize)
        ensures
            r as nat == self.rank(),
            r < KIND_COUNT,
    {
        match self {
            ComponentType::Custom => 0,
            ComponentType::Damage => 1,
            ComponentType::Health => 2,
            ComponentType::Hostile => 3,
            ComponentType::Hud => 4,
            ComponentType::Movable => 5,
            ComponentType::Position => 6,
            ComponentType::Renderable => 7,
            ComponentType::Solid => 8,
            ComponentType::User => 9,
        }
    }

    pub fn of_rank(r: usize) -> (t: ComponentType)
        requires
            r < KIND_COUNT,
        ensures
            t == Self::spec_of_rank(r as nat),
            t.rank() == r,
    {
        if r == 0 {
            ComponentType::Custom
        } else if r == 1 {
            ComponentType::Damage
        } else if r == 2 {
            ComponentType::Health
        } else if r == 3 {
            ComponentType::Hostile
        } else if r == 4 {
            ComponentType::Hud
        } else if r == 5 {
            ComponentType::Movable
        } else if r == 6 {
            ComponentType::Position
        } else if r == 7 {
            ComponentType::Renderable
        } else if r == 8 {
            ComponentType::Solid
        } else {
            ComponentType::User
        }
    }
}

/// Integer 2D point.
#[derive(Clone, Copy, Debug, PartialEq, Eq, Structural)]
pub struct Point {
    pub x: i32,
    pub y: i32,
}

/// Something that can be drawn: a position and a rotation in whole degrees.
#[derive(Clone, Copy, Debug, PartialEq, Eq, Structural)]
pub struct Renderable {
    pub position: Point,
    pub rotation: i64,
}

/// Marker component without fields.
#[derive(Clone, Copy, Debug, PartialEq, Eq, Structural)]
pub struct Solid {}

/// Extension payload: a component of any kind carrying plain integer fields.
#[derive(Clone, Debug)]
pub struct CustomComponent {
    pub kind: ComponentType,
    pub fields: Vec<i64>,
}

/// A component value.
#[derive(Clone, Debug)]
pub enum Component {
    Renderable(Renderable),
    Solid(Solid),
    Custom(CustomComponent),
}

impl Component {
    /// The kind that this component reports.
    pub open spec fn kind(self) -> ComponentType {
        match self {
            Component::Renderable(_) => ComponentType::Renderable,
            Component::Solid(_) => ComponentType::Solid,
            Component::Custom(c) => c.kind,
        }
    }

    pub fn get_type(&self) -> (r: ComponentType)
        ensures
            r == self.kind(),
    {
        match self {
            Component::Renderable(_) => ComponentType::Renderable,
            Component::Solid(_) => ComponentType::Solid,
            Component::Custom(c) => c.kind,
        }
    }

    /// Downcast to a renderable; `None` on any other variant.
    pub fn as_renderable(&self) -> (r: Option<&Renderable>)
        ensures
            r == (match *self {
                Component::Renderable(x) => Some(&x),
                _ => None,
            }),
    {
        match self {
            Component::Renderable(x) => Some(x),
            _ => None,
        }
    }

    /// Downcast to a solid marker; `None` on any other variant.
    pub fn as_solid(&self) -> (r: Option<&Solid>)
        ensures
            r == (match *self {
                Component::Solid(x) => Some(&x),
                _ => None,
            }),
    {
        match self {
            Component::Solid(x) => Some(x),
            _ => None,
        }
    }

    /// Downcast to a custom payload; `None` on any other variant.
    pub fn as_custom(&self) -> (r: Option<&CustomComponent>)
        ensures
            r == (match *self {
                Component::Custom(x) => Some(&x),
                _ => None,
            }),
    {
        match self {
            Component::Custom(x) => Some(x),
            _ => None,
        }
    }
}

} // verus!
