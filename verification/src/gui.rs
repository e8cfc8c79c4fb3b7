//! Screen-space user-interface rectangles, in the camera's normalized
//! coordinates (fixed-point, `[-SCALE, SCALE]` each axis).

use vstd::prelude::*;

use crate::fixed::{sat64, sat_spec};
use crate::vec2::Vec2;

verus! {

pub enum GuiType {
    Selected,
    SelectionDrag,
    Score,
    Timer,
    Rect,
    Menu { window_gui: Box<Gui>, buttons_gui: Box<Vec<Gui>> },
    Button,
}

/// A rectangle of the interface, stored by its four corners.
pub struct Gui {
    pub id: GuiType,
    pub top_left: Vec2,
    pub top_right: Vec2,
    pub bot_left: Vec2,
    pub bot_right: Vec2,
}

pub struct Component {
    pub components: Vec<Gui>,
}

impl Gui {
    /// A rectangle of width `w` and height `h` centered at `pos`: each
    /// corner sits half a width and half a height out from the center.
    pub fn new(id: GuiType, w: i64, h: i64, pos: Vec2) -> (r: Gui)
        requires
            w >= 0,
            h >= 0,
        ensures
            r.top_left.x == sat_spec(pos.x - w / 2),
            r.top_left.y == sat_spec(pos.y + h / 2),
            r.top_right.x == sat_spec(pos.x + w / 2),
            r.top_right.y == sat_spec(pos.y + h / 2),
            r.bot_left.x == sat_spec(pos.x - w / 2),
            r.bot_left.y == sat_spec(pos.y - h / 2),
            r.bot_right.x == sat_spec(pos.x + w / 2),
            r.bot_right.y == sat_spec(pos.y - h / 2),
            r.id == id,
    {
        let hx = w / 2;
        let hy = h / 2;
        let left = sat64(pos.x as i128 - hx as i128);
        let right = sat64(pos.x as i128 + hx as i128);
        let top = sat64(pos.y as i128 + hy as i128);
        let bot = sat64(pos.y as i128 - hy as i128);
        Gui {
            id,
            top_left: Vec2 { x: left, y: top },
            top_right: Vec2 { x: right, y: top },
            bot_left: Vec2 { x: left, y: bot },
            bot_right: Vec2 { x: right, y: bot },
        }
    }

    /// Shift the whole rectangle by a vector.
    pub fn move_pos(&mut self, vec: Vec2)
        ensures
            final(self).id == old(self).id,
            final(self).top_left.x == sat_spec(old(self).top_left.x + vec.x),
            final(self).top_left.y == sat_spec(old(self).top_left.y + vec.y),
            final(self).top_right.x == sat_spec(old(self).top_right.x + vec.x),
            final(self).top_right.y == sat_spec(old(self).top_right.y + vec.y),
            final(self).bot_left.x == sat_spec(old(self).bot_left.x + vec.x),
            final(self).bot_left.y == sat_spec(old(self).bot_left.y + vec.y),
            final(self).bot_right.x == sat_spec(old(self).bot_right.x + vec.x),
            final(self).bot_right.y == sat_spec(old(self).bot_right.y + vec.y),
    {
        self.top_left = self.top_left.plus(vec);
        self.top_right = self.top_right.plus(vec);
        self.bot_left = self.bot_left.plus(vec);
        self.bot_right = self.bot_right.plus(vec);
    }

    /// The four corners in order: top left, top right, bottom left, bottom
    /// right.
    pub fn get_dimension(&self) -> (r: (&Vec2, &Vec2, &Vec2, &Vec2))
        ensures
            *r.0 == self.top_left,
            *r.1 == self.top_right,
            *r.2 == self.bot_left,
            *r.3 == self.bot_right,
    {
        (&self.top_left, &self.top_right, &self.bot_left, &self.bot_right)
    }

    pub fn set_dimension(&mut self, tl: Vec2, tr: Vec2, bl: Vec2, br: Vec2)
        ensures
            final(self).id == old(self).id,
            final(self).top_left == tl,
            final(self).top_right == tr,
            final(self).bot_left == bl,
            final(self).bot_right == br,
    {
        self.top_left = tl;
        self.top_right = tr;
        self.bot_left = bl;
        self.bot_right = br;
    }
}

impl Component {
    /// The demonstration layout: a selection panel in the bottom-left
    /// corner, the drag rectangle, and a one-button menu at the top left.
    pub fn init_demo() -> (r: Component)
        ensures
            r.components@.len() == 3,
            r.components@[0].id is Selected,
            r.components@[0].top_left == (Vec2 { x: -62259i64, y: -55705i64 }),
            r.components@[0].top_right == (Vec2 { x: -55705i64, y: -55705i64 }),
            r.components@[0].bot_left == (Vec2 { x: -62259i64, y: -62259i64 }),
            r.components@[0].bot_right == (Vec2 { x: -55705i64, y: -62259i64 }),
            r.components@[1].id is SelectionDrag,
            r.components@[1].top_left == (Vec2 { x: 0, y: 0 }),
            r.components@[1].top_right == (Vec2 { x: 0, y: 0 }),
            r.components@[1].bot_left == (Vec2 { x: 0, y: 0 }),
            r.components@[1].bot_right == (Vec2 { x: 0, y: 0 }),
            r.components@[2].id is Menu,
            r.components@[2].top_left == (Vec2 { x: -62259i64, y: 63078i64 }),
            r.components@[2].top_right == (Vec2 { x: -55705i64, y: 63078i64 }),
            r.components@[2].bot_left == (Vec2 { x: -62259i64, y: 54886i64 }),
            r.components@[2].bot_right == (Vec2 { x: -55705i64, y: 54886i64 }),
    {
        let selected_ui = Gui::new(
            GuiType::Selected,
            6554,
            6554,
            Vec2 { x: -58982, y: -58982 },
        );
        let drag_ui = Gui::new(GuiType::SelectionDrag, 0, 0, Vec2 { x: 0, y: 0 });
        let box_ui = Gui::new(GuiType::Button, 19661, 32768, Vec2 { x: 0, y: 0 });
        let button1 = Gui::new(GuiType::Button, 13107, 3277, Vec2 { x: 0, y: 0 });
        let mut buttons: Vec<Gui> = Vec::new();
        buttons.push(button1);
        let menu_ui = Gui::new(
            GuiType::Menu { window_gui: Box::new(box_ui), buttons_gui: Box::new(buttons) },
            6554,
            8192,
            Vec2 { x: -58982, y: 58982 },
        );
        let mut components: Vec<Gui> = Vec::new();
        components.push(selected_ui);
        components.push(drag_ui);
        components.push(menu_ui);
        Component { components }
    }
}

} // verus!
