use htrs::decimal::Decimal;
use htrs::htmx::{Htmx, Swap, Target};
use htrs::style::{px, rem, Edges, Length, Stylable, Style};
use htrs::{button, div, image};

fn whole(n: u128) -> Decimal {
    Decimal::new(false, n, 0)
}

#[test]
fn lengths_as_they_are_written() {
    assert_eq!(px(0).to_string(), "0px");
    assert_eq!(px(16).to_string(), "16px");
    assert_eq!(px(u32::MAX).to_string(), "4294967295px");
    assert_eq!(rem(whole(4)).to_string(), "4rem");
    assert_eq!(rem(Decimal::new(false, 5, 1)).to_string(), "0.5rem");
    assert_eq!(rem(Decimal::new(true, 125, 2)).to_string(), "-1.25rem");
    assert_eq!(Length::Px(7).to_string(), "7px");
}

#[test]
fn a_length_is_copied_by_assignment() {
    let a = px(3);
    let b = a;
    assert_eq!(a.to_string(), b.to_string());
    assert_eq!(format!("{:?}", a), "Px(3)");
}

#[test]
fn edges_are_written_top_right_bottom_left() {
    let edges = Edges::all(px(0)).top(px(1)).right(px(2)).bottom(px(3)).left(px(4));
    assert_eq!(edges.to_string(), "1px 2px 3px 4px");
}

#[test]
fn the_order_of_setting_the_edges_does_not_matter() {
    let edges = Edges::all(px(9)).left(px(4)).bottom(px(3)).right(px(2)).top(px(1));
    assert_eq!(edges.to_string(), "1px 2px 3px 4px");
}

#[test]
fn all_gives_every_edge_the_same_value() {
    assert_eq!(Edges::all(px(16)).to_string(), "16px 16px 16px 16px");
    assert_eq!(Edges::all(rem(whole(2))).to_string(), "2rem 2rem 2rem 2rem");
}

#[test]
fn each_setter_changes_its_own_edge_only() {
    assert_eq!(Edges::all(px(0)).top(px(5)).to_string(), "5px 0px 0px 0px");
    assert_eq!(Edges::all(px(0)).right(px(5)).to_string(), "0px 5px 0px 0px");
    assert_eq!(Edges::all(px(0)).bottom(px(5)).to_string(), "0px 0px 5px 0px");
    assert_eq!(Edges::all(px(0)).left(px(5)).to_string(), "0px 0px 0px 5px");
    assert_eq!(Edges::all(px(0)).top(px(5)).top(px(6)).to_string(), "6px 0px 0px 0px");
}

#[test]
fn edges_hold_any_copied_value() {
    let edges = Edges::all(1u8).top(2).left(3);
    let _moved = edges.right(4).bottom(5);
}

#[test]
fn declarations_as_they_are_written() {
    let edges = || Edges::all(px(1)).left(rem(whole(2)));
    assert_eq!(Style::Padding(edges()).to_string(), "padding: 1px 1px 1px 2rem;");
    assert_eq!(Style::Margin(edges()).to_string(), "margin: 1px 1px 1px 2rem;");
    assert_eq!(Style::Border(edges()).to_string(), "border: 1px 1px 1px 2rem;");
}

#[test]
fn padding_then_margin_accumulate_in_call_order() {
    let node = button("X")
        .padding(Edges::all(px(16)))
        .margin(Edges::all(px(0)).top(rem(whole(4))));
    assert_eq!(
        node.render(),
        "<button style=\"padding: 16px 16px 16px 16px;margin: 4rem 0px 0px 0px;\">X</button>"
    );
}

#[test]
fn style_and_its_three_shorthands_agree() {
    let by_style = button("X")
        .style(Style::Padding(Edges::all(px(1))))
        .style(Style::Margin(Edges::all(px(2))))
        .style(Style::Border(Edges::all(px(3))));
    let by_name = button("X")
        .padding(Edges::all(px(1)))
        .margin(Edges::all(px(2)))
        .border(Edges::all(px(3)));
    let expected = "<button style=\"padding: 1px 1px 1px 1px;margin: 2px 2px 2px 2px;border: 3px 3px 3px 3px;\">X</button>";
    assert_eq!(by_style.render(), expected);
    assert_eq!(by_name.render(), expected);
}

#[test]
fn the_same_declaration_twice_is_kept_twice() {
    let node = button("X").padding(Edges::all(px(1))).padding(Edges::all(px(1)));
    assert_eq!(
        node.render(),
        "<button style=\"padding: 1px 1px 1px 1px;padding: 1px 1px 1px 1px;\">X</button>"
    );
}

#[test]
fn login_button_page() {
    let page = div((
        button("Jw2476")
            .padding(Edges::all(px(16)))
            .border(Edges::all(rem(whole(2))))
            .margin(Edges::all(px(0)).top(rem(whole(4))))
            .post("/login")
            .trigger("onClick")
            .swap(Swap::Outer)
            .target(Target::This),
        image("/wade.jpg"),
    ));
    let expected = "<div>\n  <button style=\"padding: 16px 16px 16px 16px;border: 2rem 2rem 2rem 2rem;margin: 4rem 0px 0px 0px;\" hx-post=\"/login\" hx-trigger=\"onClick\" hx-swap=\"outerHTML\" hx-target=\"this\">Jw2476</button>\n  <image src=\"/wade.jpg\"></image>\n</div>";
    assert_eq!(page.render(), expected);
}
