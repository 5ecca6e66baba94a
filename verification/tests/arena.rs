use unnamed::AssignExpr;
use unnamed::AstCtx;
use unnamed::BinExpr;
use unnamed::BinOp;
use unnamed::Block;
use unnamed::CallExpr;
use unnamed::ElseExpr;
use unnamed::EntityArena;
use unnamed::EntityList;
use unnamed::Expr;
use unnamed::ExprEntity;
use unnamed::FieldEntity;
use unnamed::FieldExpr;
use unnamed::Handle;
use unnamed::IfExpr;
use unnamed::IndexExpr;
use unnamed::Interner;
use unnamed::MethodCallExpr;
use unnamed::ReturnExpr;
use unnamed::Span;
use unnamed::Spanned;
use unnamed::StructExpr;
use unnamed::StructFieldExpr;
use unnamed::Type;
use unnamed::TypeEntity;
use unnamed::TypeKind;
use unnamed::UnaryExpr;
use unnamed::UnaryOp;
use unnamed::WhileExpr;
use unnamed::ArrayExpr;
use unnamed::ArrayExprKind;

#[test]
fn handles_find_what_was_inserted() {
    let mut arena: EntityArena<ExprEntity, String> = EntityArena::new();
    let mut handles = Vec::new();
    for i in 0..1000 {
        handles.push(arena.insert(format!("node {}", i * 7 % 13)));
    }
    assert_eq!(arena.len(), 1000);
    for (i, handle) in handles.iter().enumerate() {
        assert_eq!(handle.as_u32(), i as u32);
        assert_eq!(arena.get(*handle), &format!("node {}", i * 7 % 13));
    }
    for (i, handle) in handles.iter().enumerate().rev() {
        assert_eq!(arena.get(*handle), &format!("node {}", i * 7 % 13));
    }
}

#[test]
fn handles_count_up() {
    let mut arena: EntityArena<TypeEntity, u8> = EntityArena::default();
    assert_eq!(arena.len(), 0);
    let a = arena.insert(3);
    let b = arena.insert(1);
    let c = arena.insert(2);
    assert_eq!((a.to_raw(), b.to_raw(), c.to_raw()), (0, 1, 2));
    assert_eq!((*arena.get(a), *arena.get(b), *arena.get(c)), (3, 1, 2));
    assert_eq!((arena[a], arena[b], arena[c]), (3, 1, 2));
    assert_eq!(TypeEntity::from_raw(1), b);
    assert_eq!(TypeEntity::from_u32(2), c);
    assert_eq!(TypeEntity::from_bits(c.as_bits()), c);
}

#[test]
fn lists_keep_their_order() {
    let mut arena: EntityArena<ExprEntity, u32> = EntityArena::new();
    let handles: Vec<ExprEntity> = (0..20).map(|i| arena.insert(i * i)).collect();
    let first = arena.insert_list(&vec![handles[3], handles[1], handles[2]]);
    let long: Vec<ExprEntity> = handles.iter().rev().copied().collect();
    let second = arena.insert_list(&long);
    let empty = arena.insert_list(&Vec::new());
    let third = arena.insert_list(&vec![handles[7]]);
    arena.insert(99);
    assert_eq!(arena.list(first), vec![handles[3], handles[1], handles[2]]);
    assert_eq!(arena.list(second), long);
    assert_eq!(arena.list(empty), Vec::new());
    assert_eq!(arena.list(third), vec![handles[7]]);
    assert_eq!(arena.list(first), vec![handles[3], handles[1], handles[2]]);
    assert_eq!(arena.list(EntityList::new()), Vec::new());
    assert_eq!(empty, EntityList::new());
    assert_ne!(first, second);
    assert_eq!(arena.used(), 4 + 32 + 0 + 4);
    assert!(arena.has_room(0));
    assert!(arena.has_room(7));
    assert!(arena.has_room((1 << 31) - 1));
    assert!(!arena.has_room(1 << 31));
    assert!(!arena.has_room(usize::MAX));
}

#[test]
fn a_clone_holds_the_same_nodes_and_lists() {
    let mut arena: EntityArena<ExprEntity, u32> = EntityArena::new();
    let a = arena.insert(5);
    let b = arena.insert(6);
    let list = arena.insert_list(&vec![b, a, b]);
    let copy = arena.clone();
    arena.insert(7);
    assert_eq!(copy.len(), 2);
    assert_eq!(*copy.get(b), 6);
    assert_eq!(copy.list(list), vec![b, a, b]);
    assert_eq!(copy.used(), arena.used());
}

#[test]
fn node_spans_are_unions() {
    let mut interner = Interner::new();
    let mut ctx = AstCtx::new();
    let x = interner.intern("x");
    let a = ctx.exprs.insert(Expr::Ident(x, Span::new(4, 5)));
    let b = ctx.exprs.insert(Expr::Int(1, Span::new(8, 9)));
    let c = ctx.exprs.insert(Expr::Bool(true, Span::new(20, 24)));

    let bin = BinExpr::new(&ctx, a, BinOp::Add, b);
    assert_eq!(bin.span, Span::new(4, 9));
    assert_eq!(bin.span(), Span::new(4, 9));
    assert_eq!(Expr::Bin(bin).span(), Span::new(4, 9));
    let bin = BinExpr::new(&ctx, c, BinOp::Sub, a);
    assert_eq!(bin.span, Span::new(4, 24));

    let unary = UnaryExpr::new(&ctx, UnaryOp::Sub, Span::new(7, 8), b);
    assert_eq!(unary, UnaryExpr { op: UnaryOp::Sub, value: b, span: Span::new(7, 9) });

    let assign = AssignExpr::new(&ctx, x, Span::new(0, 1), b);
    assert_eq!(assign.span(), Span::new(0, 9));

    let field = FieldExpr::new(&ctx, a, x, Span::new(6, 7));
    assert_eq!(field.span(), Span::new(4, 7));

    let index = IndexExpr::new(&ctx, a, b, Span::new(9, 10));
    assert_eq!(index.span(), Span::new(4, 10));

    let ret = ReturnExpr::new(&ctx, Span::new(10, 16), Some(c));
    assert_eq!(ret.span(), Span::new(10, 24));
    let ret = ReturnExpr::new(&ctx, Span::new(10, 16), None);
    assert_eq!(ret, ReturnExpr { value: None, span: Span::new(10, 16) });

    let repeat = ArrayExpr::repeat(&ctx, b, c);
    assert_eq!(repeat.span(), Span::new(8, 24));
    assert_eq!(repeat.kind, ArrayExprKind::Repeat { value: b, repeat: c });
}

#[test]
fn list_nodes_take_the_fallback_when_empty() {
    let mut interner = Interner::new();
    let mut ctx = AstCtx::new();
    let f = interner.intern("f");
    let callee = ctx.exprs.insert(Expr::Ident(f, Span::new(0, 1)));
    let one = ctx.exprs.insert(Expr::Int(1, Span::new(2, 3)));
    let two = ctx.exprs.insert(Expr::Int(2, Span::new(5, 6)));
    let args = ctx.exprs.insert_list(&vec![one, two]);
    let none = ctx.exprs.insert_list(&Vec::new());
    let no_types = ctx.types.insert_list(&Vec::new());

    let block = Block::new(&ctx, args, Span::new(100, 102));
    assert_eq!(block.span(), Span::new(2, 6));
    assert_eq!(Expr::Block(block).span(), Span::new(2, 6));
    let empty = Block::new(&ctx, none, Span::new(100, 102));
    assert_eq!(empty, Block { exprs: none, span: Span::new(100, 102) });

    let call = CallExpr::new(&ctx, callee, no_types, args, Span::new(1, 7));
    assert_eq!(call.span(), Span::new(0, 7));
    let call = CallExpr::new(&ctx, callee, no_types, none, Span::new(1, 3));
    assert_eq!(call.span(), Span::new(0, 3));
    let method = MethodCallExpr::new(&ctx, one, no_types, args, Span::new(4, 9));
    assert_eq!(method.span(), Span::new(2, 9));

    let array = ArrayExpr::list(&ctx, args, Span::new(1, 7));
    assert_eq!(array.span(), Span::new(2, 6));
    let array = ArrayExpr::list(&ctx, none, Span::new(1, 7));
    assert_eq!(array.span(), Span::new(1, 7));

    let looping = WhileExpr::new(&ctx, Span::new(10, 15), one, empty);
    assert_eq!(looping.span(), Span::new(2, 102));

    let otherwise = ElseExpr::else_block(Span::new(110, 114), empty);
    assert_eq!(otherwise.span(), Span::new(100, 114));
    let nested = ElseExpr::else_if(&ctx, Span::new(110, 114), two);
    assert_eq!(nested.span(), Span::new(5, 114));
    let cond = IfExpr::new(&ctx, Span::new(50, 52), one, block, Some(otherwise));
    assert_eq!(cond.span(), Span::new(2, 114));
    let cond = IfExpr::new(&ctx, Span::new(50, 52), one, block, None);
    assert_eq!(cond.span(), Span::new(2, 52));
    assert_eq!(Expr::If(cond).span(), Span::new(2, 52));
}

#[test]
fn struct_literals_and_types() {
    let mut interner = Interner::new();
    let mut ctx = AstCtx::default();
    let point = interner.intern("Point");
    let x = interner.intern("x");
    let value = ctx.exprs.insert(Expr::Int(1, Span::new(11, 12)));
    let field = StructFieldExpr::new(&ctx, x, Span::new(8, 9), value);
    assert_eq!(field.span(), Span::new(8, 12));
    let handle: FieldEntity = ctx.field_exprs.insert(field);
    let fields = ctx.field_exprs.insert_list(&vec![handle]);
    let literal = StructExpr::new(&ctx, point, Span::new(0, 5), fields);
    assert_eq!(literal.span(), Span::new(0, 12));
    let no_fields = ctx.field_exprs.insert_list(&Vec::new());
    let literal = StructExpr::new(&ctx, point, Span::new(0, 5), no_fields);
    assert_eq!(literal.span(), Span::new(0, 5));

    let unit = Type::unit(Span::new(30, 32));
    assert_eq!(unit, Type { kind: TypeKind::Unit, span: Span::new(30, 32) });
    let unit = ctx.types.insert(unit);
    let no_args = ctx.types.insert_list(&Vec::new());
    let plain = Type::named(&ctx, point, Span::new(20, 25), no_args);
    assert_eq!(plain.span(), Span::new(20, 25));
    let plain = ctx.types.insert(plain);
    let args = ctx.types.insert_list(&vec![unit, plain]);
    let generic = Type::named(&ctx, point, Span::new(40, 45), args);
    assert_eq!(generic.span(), Span::new(20, 45));
    assert_eq!(ctx.types.list(args), vec![unit, plain]);
    assert_eq!(ctx.types.span_of(plain), Span::new(20, 25));
}

#[test]
fn many_nodes_at_once() {
    let mut arena: EntityArena<ExprEntity, String> = EntityArena::new();
    let first = arena.insert(String::from("zero"));
    let values: Vec<String> = (0..500).map(|i| format!("v{}", (i * 37) % 101)).collect();
    let handles = arena.insert_all(values.clone());
    assert_eq!(handles.len(), 500);
    let later = arena.insert(String::from("later"));
    let more = arena.insert_all(vec![String::from("x"), String::from("y")]);
    assert!(arena.insert_all(Vec::new()).is_empty());
    assert_eq!(arena.len(), 504);
    assert_eq!(arena[first], "zero");
    assert_eq!(arena[later], "later");
    assert_eq!((arena[more[0]].as_str(), arena[more[1]].as_str()), ("x", "y"));
    for (i, handle) in handles.iter().enumerate() {
        assert_eq!(handle.as_u32(), i as u32 + 1);
        assert_eq!(arena[*handle], values[i]);
        for other in &handles[..i] {
            assert_ne!(other, handle);
        }
    }
}

#[test]
fn lists_take_the_room_of_their_size_class() {
    let mut arena: EntityArena<ExprEntity, u32> = EntityArena::new();
    let mut pool: cranelift_entity::ListPool<ExprEntity> = cranelift_entity::ListPool::new();
    let handles: Vec<ExprEntity> = (0..70).map(|i| arena.insert(i)).collect();
    let expected = [(1, 4), (2, 4), (3, 4), (4, 8), (7, 8), (8, 16), (15, 16), (16, 32), (33, 64)];
    for (len, size) in expected {
        let before = arena.used();
        assert!(arena.has_room(len));
        let list = arena.insert_list(&handles[..len]);
        assert_eq!(arena.used(), before + size);
        assert_eq!(arena.list(list), handles[..len].to_vec());
        let raw = cranelift_entity::EntityList::from_slice(&handles[..len], &mut pool);
        let shown = format!("{:?}", raw);
        assert!(shown.contains(&format!("index: {},", before + 1)), "{}", shown);
        assert_eq!(raw.as_slice(&pool), &handles[..len]);
    }
    let before = arena.used();
    arena.insert_list(&[]);
    assert_eq!(arena.used(), before);
}
