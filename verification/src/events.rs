//! Wheel and touch input, turned into scroll positions.

use vstd::prelude::*;

verus! {

/// The size of a box, in pixels.
#[derive(Clone, Copy, Debug, PartialEq, Eq, Structural)]
pub struct Extent {
    pub width: i32,
    pub height: i32,
}

/// Where a container is scrolled to, as the host reports it.
#[derive(Clone, Copy, Debug, PartialEq, Eq, Structural)]
pub struct ScrollPosition {
    pub top: i32,
    pub left: i32,
}

/// The sign of a wheel event's vertical delta.
///
/// A host reports deltas as fractions of a pixel, so the sign is kept beside
/// the whole pixels: a delta of half a pixel points `Down` and moves nothing.
/// `Undefined` is a delta that compares with nothing (not a number).
#[derive(Clone, Copy, Debug, PartialEq, Eq, Structural)]
pub enum WheelDirection {
    Down,
    Up,
    Still,
    Undefined,
}

/// A wheel event: the direction of its vertical delta and both deltas in
/// whole pixels. The direction is the sign of the delta as the host gave it,
/// before the fraction of a pixel was dropped (see `wf`).
#[derive(Clone, Copy, Debug, PartialEq, Eq, Structural)]
pub struct WheelDelta {
    pub direction: WheelDirection,
    pub delta_y: i32,
    pub delta_x: i32,
}

/// A point of contact on the screen.
#[derive(Clone, Copy, Debug, PartialEq, Eq, Structural)]
pub struct TouchPoint {
    pub screen_x: i32,
    pub screen_y: i32,
}

/// What an input event comes to: whether it was consumed (the host's own
/// scrolling is to be suppressed) and the scroll position to hand to the
/// host. An event that was not consumed leaves the position as it was.
#[derive(Clone, Copy, Debug, PartialEq, Eq, Structural)]
pub struct ScrollUpdate {
    pub consumed: bool,
    pub top: i64,
    pub left: i64,
}

/// The direction in which a delta of whole pixels points.
pub open spec fn direction_of(delta: int) -> WheelDirection {
    if delta > 0 {
        WheelDirection::Down
    } else if delta < 0 {
        WheelDirection::Up
    } else {
        WheelDirection::Still
    }
}

/// The furthest scroll position along one axis: the part of the content that
/// does not fit the container, and never less than one pixel.
pub open spec fn max_scroll(content: int, container: int) -> int {
    if content - container > 1 {
        content - container
    } else {
        1
    }
}

/// A scroll position moved by `delta` and held at `limit` from above. There
/// is no bound from below: the host keeps positions from going negative.
pub open spec fn advance(limit: int, position: int, delta: int) -> int {
    if position + delta < limit {
        position + delta
    } else {
        limit
    }
}

/// What the host makes of a requested scroll position: none is negative.
pub open spec fn settled(position: int) -> int {
    if position < 0 {
        0
    } else {
        position
    }
}

/// `value` held between `low` and `high`.
pub open spec fn clamp(value: int, low: int, high: int) -> int {
    if value < low {
        low
    } else if value > high {
        high
    } else {
        value
    }
}

/// Whether a wheel event is consumed: it scrolls down while content remains
/// below the container, or up while the container is not at the top, or its
/// vertical delta is exactly zero.
pub open spec fn wheel_consumed(
    direction: WheelDirection,
    scroll_top: int,
    container_height: int,
    content_height: int,
) -> bool {
    match direction {
        WheelDirection::Down => scroll_top + container_height < content_height,
        WheelDirection::Up => scroll_top > 0,
        WheelDirection::Still => true,
        WheelDirection::Undefined => false,
    }
}

/// The scroll update that a wheel event comes to.
pub open spec fn wheel_update(
    delta: WheelDelta,
    container: Extent,
    scroll: ScrollPosition,
    content: Extent,
) -> ScrollUpdate {
    if wheel_consumed(
        delta.direction,
        scroll.top as int,
        container.height as int,
        content.height as int,
    ) {
        ScrollUpdate {
            consumed: true,
            top: advance(
                max_scroll(content.height as int, container.height as int),
                scroll.top as int,
                delta.delta_y as int,
            ) as i64,
            left: advance(
                max_scroll(content.width as int, container.width as int),
                scroll.left as int,
                delta.delta_x as int,
            ) as i64,
        }
    } else {
        ScrollUpdate { consumed: false, top: scroll.top as i64, left: scroll.left as i64 }
    }
}

/// The scroll update that dragging from `start` to `current` comes to: the
/// content follows the finger, so the position moves against the drag.
pub open spec fn touch_update(
    start: TouchPoint,
    current: TouchPoint,
    container: Extent,
    scroll: ScrollPosition,
    content: Extent,
) -> ScrollUpdate {
    ScrollUpdate {
        consumed: true,
        top: advance(
            max_scroll(content.height as int, container.height as int),
            scroll.top as int,
            start.screen_y - current.screen_y,
        ) as i64,
        left: advance(
            max_scroll(content.width as int, container.width as int),
            scroll.left as int,
            start.screen_x - current.screen_x,
        ) as i64,
    }
}

impl WheelDelta {
    /// Whether the direction agrees with the whole pixels: a delta that
    /// points down is not negative, one that points up is not positive, and
    /// any other moves nothing vertically.
    pub open spec fn wf(self) -> bool {
        match self.direction {
            WheelDirection::Down => self.delta_y >= 0,
            WheelDirection::Up => self.delta_y <= 0,
            WheelDirection::Still => self.delta_y == 0,
            WheelDirection::Undefined => self.delta_y == 0,
        }
    }

    /// A wheel event of whole pixels; its direction is the sign of `delta_y`.
    pub fn new(delta_y: i32, delta_x: i32) -> (delta: WheelDelta)
        ensures
            delta.wf(),
            delta.direction == direction_of(delta_y as int),
            delta.delta_y == delta_y,
            delta.delta_x == delta_x,
    {
        let direction = if delta_y > 0 {
            WheelDirection::Down
        } else if delta_y < 0 {
            WheelDirection::Up
        } else {
            WheelDirection::Still
        };
        WheelDelta { direction, delta_y, delta_x }
    }
}

/// The furthest scroll position along one axis.
fn scroll_limit(content: i32, container: i32) -> (limit: i64)
    ensures
        limit == max_scroll(content as int, container as int),
        1 <= limit <= 0xffff_ffff,
{
    let room: i64 = content as i64 - container as i64;
    if room > 1 {
        room
    } else {
        1
    }
}

/// `position + delta`, held at `limit` from above.
fn advance_to(limit: i64, position: i64, delta: i64) -> (next: i64)
    requires
        -0x1_0000_0000 <= position <= 0x1_0000_0000,
        -0x2_0000_0000 <= delta <= 0x2_0000_0000,
    ensures
        next == advance(limit as int, position as int, delta as int),
{
    let moved: i64 = position + delta;
    if moved < limit {
        moved
    } else {
        limit
    }
}

/// Remembers where a touch began and turns wheel and touch events into scroll
/// positions.
#[derive(Clone, Copy, Debug)]
pub struct RegularViewEventModel {
    memo_touch_start_y: i32,
    memo_touch_start_x: i32,
}

impl RegularViewEventModel {
    /// The point at which the touch in progress began.
    pub closed spec fn touch_start(&self) -> TouchPoint {
        TouchPoint { screen_x: self.memo_touch_start_x, screen_y: self.memo_touch_start_y }
    }

    /// A model that has seen no touch yet: its start point is the origin.
    pub fn new() -> (model: RegularViewEventModel)
        ensures
            model.touch_start() == (TouchPoint { screen_x: 0, screen_y: 0 }),
    {
        RegularViewEventModel { memo_touch_start_x: 0, memo_touch_start_y: 0 }
    }

    /// The point at which the touch in progress began.
    pub fn touch_origin(&self) -> (start: TouchPoint)
        ensures
            start == self.touch_start(),
    {
        TouchPoint { screen_x: self.memo_touch_start_x, screen_y: self.memo_touch_start_y }
    }

    /// Handles a wheel event over a container of size `container`, scrolled to
    /// `scroll`, whose content has size `content`.
    ///
    /// The event is consumed exactly when `wheel_consumed` says so. A consumed
    /// event moves both axes by its deltas, each held at `max_scroll` from
    /// above; any other leaves the position as it was.
    pub fn on_wheel(
        &self,
        delta: WheelDelta,
        container: Extent,
        scroll: ScrollPosition,
        content: Extent,
    ) -> (update: ScrollUpdate)
        ensures
            update == wheel_update(delta, container, scroll, content),
    {
        let reach: i64 = scroll.top as i64 + container.height as i64;
        let consumed = match delta.direction {
            WheelDirection::Down => reach < content.height as i64,
            WheelDirection::Up => scroll.top > 0,
            WheelDirection::Still => true,
            WheelDirection::Undefined => false,
        };
        if consumed {
            let limit_top = scroll_limit(content.height, container.height);
            let limit_left = scroll_limit(content.width, container.width);
            ScrollUpdate {
                consumed: true,
                top: advance_to(limit_top, scroll.top as i64, delta.delta_y as i64),
                left: advance_to(limit_left, scroll.left as i64, delta.delta_x as i64),
            }
        } else {
            ScrollUpdate { consumed: false, top: scroll.top as i64, left: scroll.left as i64 }
        }
    }

    /// Remembers where a touch began.
    pub fn on_touch_start(&mut self, touch: TouchPoint)
        ensures
            final(self).touch_start() == touch,
    {
        self.memo_touch_start_y = touch.screen_y;
        self.memo_touch_start_x = touch.screen_x;
    }

    /// Handles a touch that has moved to `touch`. The event is always
    /// consumed, and the position moves by the distance from the remembered
    /// start to `touch`, against the drag. The start point stays as it was.
    pub fn on_touch_move(
        &self,
        touch: TouchPoint,
        container: Extent,
        scroll: ScrollPosition,
        content: Extent,
    ) -> (update: ScrollUpdate)
        ensures
            update == touch_update(self.touch_start(), touch, container, scroll, content),
    {
        let limit_top = scroll_limit(content.height, container.height);
        let limit_left = scroll_limit(content.width, container.width);
        let drag_y: i64 = self.memo_touch_start_y as i64 - touch.screen_y as i64;
        let drag_x: i64 = self.memo_touch_start_x as i64 - touch.screen_x as i64;
        ScrollUpdate {
            consumed: true,
            top: advance_to(limit_top, scroll.top as i64, drag_y),
            left: advance_to(limit_left, scroll.left as i64, drag_x),
        }
    }
}

/// Content that fits its container cannot be scrolled down: a wheel event
/// with a positive vertical delta over a container at or below the top is
/// not consumed and leaves the scroll position where it was.
pub proof fn lemma_wheel_down_needs_content_below(
    delta: WheelDelta,
    container: Extent,
    scroll: ScrollPosition,
    content: Extent,
)
    requires
        delta.wf(),
        delta.delta_y > 0,
        content.height <= container.height,
        scroll.top >= 0,
    ensures
        !wheel_update(delta, container, scroll, content).consumed,
        wheel_update(delta, container, scroll, content).top == scroll.top,
        wheel_update(delta, container, scroll, content).left == scroll.left,
{
}

/// A wheel event whose vertical delta is exactly zero is always consumed and
/// leaves the container where it is vertically, unless the container lies
/// beyond the furthest position, to which it is then brought back.
pub proof fn lemma_wheel_still_is_consumed(
    delta: WheelDelta,
    container: Extent,
    scroll: ScrollPosition,
    content: Extent,
)
    requires
        delta.wf(),
        delta.direction == WheelDirection::Still,
    ensures
        wheel_update(delta, container, scroll, content).consumed,
        wheel_update(delta, container, scroll, content).top == (if scroll.top < max_scroll(
            content.height as int,
            container.height as int,
        ) {
            scroll.top as int
        } else {
            max_scroll(content.height as int, container.height as int)
        }),
{
}

/// Along each axis a drag moves a container that is scrolled within its range
/// to the old position plus the distance dragged, held between zero and the
/// furthest position, once the host has settled the request.
pub proof fn lemma_touch_moves_within_range(
    start: TouchPoint,
    current: TouchPoint,
    container: Extent,
    scroll: ScrollPosition,
    content: Extent,
)
    requires
        0 <= scroll.top <= max_scroll(content.height as int, container.height as int),
        0 <= scroll.left <= max_scroll(content.width as int, container.width as int),
    ensures
        settled(touch_update(start, current, container, scroll, content).top as int) == clamp(
            scroll.top + (start.screen_y - current.screen_y),
            0,
            max_scroll(content.height as int, container.height as int),
        ),
        settled(touch_update(start, current, container, scroll, content).left as int) == clamp(
            scroll.left + (start.screen_x - current.screen_x),
            0,
            max_scroll(content.width as int, container.width as int),
        ),
{
}

/// A drag changes the settled scroll position by exactly the distance
/// dragged, held between zero and the furthest position, along each axis on
/// which the container starts at the origin or the drag stays within range.
pub proof fn lemma_touch_delta(
    start: TouchPoint,
    current: TouchPoint,
    container: Extent,
    scroll: ScrollPosition,
    content: Extent,
)
    requires
        0 <= scroll.top,
        0 <= scroll.left,
        scroll.top == 0 || 0 <= start.screen_y - current.screen_y <= max_scroll(
            content.height as int,
            container.height as int,
        ) - scroll.top,
        scroll.left == 0 || 0 <= start.screen_x - current.screen_x <= max_scroll(
            content.width as int,
            container.width as int,
        ) - scroll.left,
    ensures
        settled(touch_update(start, current, container, scroll, content).top as int) - scroll.top
            == clamp(
            start.screen_y - current.screen_y,
            0,
            max_scroll(content.height as int, container.height as int),
        ),
        settled(touch_update(start, current, container, scroll, content).left as int)
            - scroll.left == clamp(
            start.screen_x - current.screen_x,
            0,
            max_scroll(content.width as int, container.width as int),
        ),
{
}

} // verus!
