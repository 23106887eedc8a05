use rlox::expr::{AstPrinter, Expr, Literal};
use rlox::token::TokenType;

fn number(text: &str) -> Box<Expr> {
    Box::new(Expr::Literal(Literal::Number(text.to_string())))
}

#[test]
fn prints_negated_product_of_group() {
    let tree = Expr::Binary(
        Box::new(Expr::Unary(TokenType::Minus, number("2"))),
        TokenType::Star,
        Box::new(Expr::Grouping(Box::new(Expr::Binary(
            number("3"),
            TokenType::Plus,
            number("4"),
        )))),
    );
    let mut printer = AstPrinter;
    assert_eq!(printer.print(&tree), "((-2)*((3+4)))");
}

#[test]
fn prints_each_binary_operator() {
    let mut printer = AstPrinter;
    let ops = [
        (TokenType::Minus, "(1-2)"),
        (TokenType::Plus, "(1+2)"),
        (TokenType::Slash, "(1/2)"),
        (TokenType::Star, "(1*2)"),
    ];
    for (op, expected) in ops {
        let tree = Expr::Binary(number("1"), op, number("2"));
        assert_eq!(printer.print(&tree), expected);
    }
}

#[test]
fn prints_unary_operators_and_literals() {
    let mut printer = AstPrinter;
    let not_true = Expr::Unary(TokenType::Bang, Box::new(Expr::Literal(Literal::True)));
    assert_eq!(printer.print(&not_true), "(!true)");
    assert_eq!(printer.print(&Expr::Literal(Literal::False)), "false");
    assert_eq!(printer.print(&Expr::Literal(Literal::Nil)), "nil");
    let text = Expr::Literal(Literal::String("hi there".to_string()));
    assert_eq!(printer.print(&text), "hi there");
    assert_eq!(printer.print(&Expr::Literal(Literal::Number("12.5".to_string()))), "12.5");
}

#[test]
fn grouping_adds_its_own_parentheses() {
    let mut printer = AstPrinter;
    let bare = Expr::Binary(number("1"), TokenType::Plus, number("2"));
    let grouped = Expr::Grouping(Box::new(Expr::Binary(
        number("1"),
        TokenType::Plus,
        number("2"),
    )));
    assert_eq!(printer.print(&bare), "(1+2)");
    assert_eq!(printer.print(&grouped), "((1+2))");
}
