use patchwork::identity::{
    bearer_token, create_identity, default_nickname, new_identity, random_nickname, renew_identity,
    update_nickname, validate_nickname, verify_identity, AppState, AuthError, Claims, CreateRsp,
    UpdateNicknameReq, UpdateRsp, UserIdentity, VerifyRsp, MAX_NICKNAME_BYTES, TOKEN_LIFETIME,
};

fn claims() -> Claims {
    Claims {
        sub: "0b5c1a52-7d56-4a0e-9a50-0f3c8a5d1e11".to_string(),
        nickname: "玩家_0421".to_string(),
        iat: 1_700_000_000,
        exp: 1_700_086_400,
    }
}

#[test]
fn app_state_keeps_the_secret() {
    let state = AppState::new("s3cr3t".to_string());
    assert_eq!(state.jwt_secret(), "s3cr3t");
    assert_eq!(AppState::new(String::new()).jwt_secret(), "");
}

#[test]
fn default_nickname_takes_the_last_digit_of_each_byte() {
    assert_eq!(default_nickname([0, 1, 2, 3]), "玩家_0123");
    assert_eq!(default_nickname([10, 255, 99, 7]), "玩家_0597");
    assert_eq!(default_nickname([9, 19, 129, 200]), "玩家_9990");
    assert_eq!(default_nickname([4, 15, 26, 38]), "玩家_4568");
}

#[test]
fn random_nickname_is_the_prefix_and_four_digits() {
    for _ in 0..50 {
        let name = random_nickname();
        let digits = name.strip_prefix("玩家_").expect("prefix");
        assert_eq!(digits.len(), 4);
        assert!(digits.chars().all(|c| c.is_ascii_digit()));
    }
}

#[test]
fn new_identity_expires_after_a_day() {
    let (claims, identity) = new_identity("abc".to_string(), "bob".to_string(), 1_700_000_000);
    assert_eq!(TOKEN_LIFETIME, 86_400);
    assert_eq!(claims.sub, "abc");
    assert_eq!(claims.nickname, "bob");
    assert_eq!(claims.iat, 1_700_000_000);
    assert_eq!(claims.exp, 1_700_086_400);
    assert_eq!(identity.user_id, "abc");
    assert_eq!(identity.nickname, "bob");
    assert_eq!(identity.created_at, 1_700_000_000);
}

#[test]
fn create_identity_gives_a_fresh_id_and_a_default_nickname() {
    let (claims, identity) = create_identity();
    assert_eq!(claims.sub.len(), 36);
    assert_eq!(claims.sub.chars().filter(|c| *c == '-').count(), 4);
    assert_eq!(claims.exp, claims.iat + 86_400);
    assert!(claims.iat > 1_600_000_000);
    assert!(claims.nickname.starts_with("玩家_"));
    assert_eq!(claims.nickname.chars().count(), 7);
    assert_eq!(identity.user_id, claims.sub);
    assert_eq!(identity.nickname, claims.nickname);
    assert_eq!(identity.created_at, claims.iat);
    let (other, _) = create_identity();
    assert_ne!(other.sub, claims.sub);
}

#[test]
fn verify_identity_reads_the_claims() {
    let identity = verify_identity(claims());
    assert_eq!(identity.user_id, "0b5c1a52-7d56-4a0e-9a50-0f3c8a5d1e11");
    assert_eq!(identity.nickname, "玩家_0421");
    assert_eq!(identity.created_at, 1_700_000_000);
}

#[test]
fn validate_nickname_trims_white_space() {
    assert_eq!(validate_nickname("  bob \t\n"), Ok("bob".to_string()));
    assert_eq!(validate_nickname("bob"), Ok("bob".to_string()));
    assert_eq!(validate_nickname(" a b "), Ok("a b".to_string()));
    assert_eq!(validate_nickname("\u{3000}小明\u{a0}"), Ok("小明".to_string()));
}

#[test]
fn validate_nickname_refuses_an_empty_name() {
    assert_eq!(validate_nickname(""), Err(AuthError::EmptyNickname));
    assert_eq!(validate_nickname("   "), Err(AuthError::EmptyNickname));
    assert_eq!(validate_nickname("\n\t \r"), Err(AuthError::EmptyNickname));
}

#[test]
fn validate_nickname_counts_bytes() {
    assert_eq!(MAX_NICKNAME_BYTES, 20);
    assert_eq!(validate_nickname("12345678901234567890"), Ok("12345678901234567890".to_string()));
    assert_eq!(validate_nickname("123456789012345678901"), Err(AuthError::NicknameTooLong));
    assert_eq!(validate_nickname("  12345678901234567890  "), Ok("12345678901234567890".to_string()));
    // Six characters of three bytes each fit; seven do not.
    assert_eq!(validate_nickname("一二三四五六"), Ok("一二三四五六".to_string()));
    assert_eq!(validate_nickname("一二三四五六七"), Err(AuthError::NicknameTooLong));
}

#[test]
fn renew_identity_keeps_the_id_and_the_time_of_issue() {
    let (renewed, identity) = renew_identity(&claims(), "alice".to_string(), 1_800_000_000);
    assert_eq!(renewed.sub, "0b5c1a52-7d56-4a0e-9a50-0f3c8a5d1e11");
    assert_eq!(renewed.nickname, "alice");
    assert_eq!(renewed.iat, 1_700_000_000);
    assert_eq!(renewed.exp, 1_800_086_400);
    assert_eq!(identity.user_id, "0b5c1a52-7d56-4a0e-9a50-0f3c8a5d1e11");
    assert_eq!(identity.nickname, "alice");
    assert_eq!(identity.created_at, 1_700_000_000);
}

#[test]
fn update_nickname_renews_from_now() {
    let (renewed, identity) = update_nickname(Ok(claims()), "  alice ").expect("accepted");
    assert_eq!(renewed.sub, "0b5c1a52-7d56-4a0e-9a50-0f3c8a5d1e11");
    assert_eq!(renewed.nickname, "alice");
    assert_eq!(renewed.iat, 1_700_000_000);
    assert!(renewed.exp > 1_700_086_400);
    assert_eq!(identity.user_id, "0b5c1a52-7d56-4a0e-9a50-0f3c8a5d1e11");
    assert_eq!(identity.nickname, "alice");
    assert_eq!(identity.created_at, 1_700_000_000);
}

#[test]
fn update_nickname_refuses_an_empty_nickname_before_the_token() {
    for raw in ["", "   ", "\n\t "] {
        assert_eq!(update_nickname(Ok(claims()), raw).err(), Some(AuthError::EmptyNickname));
        assert_eq!(
            update_nickname(Err(AuthError::MissingHeader), raw).err(),
            Some(AuthError::EmptyNickname)
        );
        assert_eq!(
            update_nickname(Err(AuthError::InvalidToken), raw).err(),
            Some(AuthError::EmptyNickname)
        );
    }
    assert_eq!(AuthError::EmptyNickname.status(), 400);
}

#[test]
fn update_nickname_refuses_a_long_nickname_before_the_token() {
    let long = "123456789012345678901";
    assert_eq!(update_nickname(Ok(claims()), long).err(), Some(AuthError::NicknameTooLong));
    assert_eq!(
        update_nickname(Err(AuthError::MalformedHeader), long).err(),
        Some(AuthError::NicknameTooLong)
    );
    assert_eq!(
        update_nickname(Ok(claims()), "一二三四五六七").err(),
        Some(AuthError::NicknameTooLong)
    );
    assert_eq!(AuthError::NicknameTooLong.status(), 400);
    let (renewed, _) = update_nickname(Ok(claims()), "12345678901234567890").expect("accepted");
    assert_eq!(renewed.nickname, "12345678901234567890");
}

#[test]
fn update_nickname_passes_on_a_refused_token() {
    for reason in [AuthError::MissingHeader, AuthError::MalformedHeader, AuthError::InvalidToken] {
        assert_eq!(update_nickname(Err(reason), "alice").err(), Some(reason));
        assert_eq!(reason.status(), 401);
    }
}

#[test]
fn bearer_token_takes_what_follows_the_prefix() {
    assert_eq!(bearer_token(Some("Bearer abc.def.ghi")), Ok("abc.def.ghi"));
    assert_eq!(bearer_token(Some("Bearer ")), Ok(""));
    assert_eq!(bearer_token(Some("Bearer  x")), Ok(" x"));
}

#[test]
fn bearer_token_refuses_other_headers() {
    assert_eq!(bearer_token(None), Err(AuthError::MissingHeader));
    assert_eq!(bearer_token(Some("")), Err(AuthError::MalformedHeader));
    assert_eq!(bearer_token(Some("Bearer")), Err(AuthError::MalformedHeader));
    assert_eq!(bearer_token(Some("bearer abc")), Err(AuthError::MalformedHeader));
    assert_eq!(bearer_token(Some("Basic abc")), Err(AuthError::MalformedHeader));
    assert_eq!(bearer_token(Some(" Bearer abc")), Err(AuthError::MalformedHeader));
}

#[test]
fn refusals_have_a_status_and_a_message() {
    assert_eq!(AuthError::EmptyNickname.status(), 400);
    assert_eq!(AuthError::NicknameTooLong.status(), 400);
    assert_eq!(AuthError::MissingHeader.status(), 401);
    assert_eq!(AuthError::MalformedHeader.status(), 401);
    assert_eq!(AuthError::EmptyNickname.message(), "昵称不能为空");
    assert_eq!(AuthError::NicknameTooLong.message(), "昵称不能超过20个字符");
    assert_eq!(AuthError::MissingHeader.message(), "缺少 Authorization header");
    assert_eq!(AuthError::MalformedHeader.message(), "Authorization header 格式错误");
    assert_eq!(AuthError::InvalidToken.status(), 401);
    assert_eq!(AuthError::InvalidToken.message(), "JWT 验证失败");
}

#[test]
fn answers_carry_the_token_and_the_identity() {
    let identity = UserIdentity { user_id: "u".to_string(), nickname: "n".to_string(), created_at: 3 };
    let created = CreateRsp { jwt: "t".to_string(), identity: identity.clone() };
    let updated = UpdateRsp { jwt: "t2".to_string(), identity: identity.clone() };
    let verified = VerifyRsp { identity };
    let request = UpdateNicknameReq { nickname: " n2 ".to_string() };
    assert_eq!(created.jwt, "t");
    assert_eq!(created.identity.user_id, "u");
    assert_eq!(updated.jwt, "t2");
    assert_eq!(updated.identity.nickname, "n");
    assert_eq!(verified.identity.created_at, 3);
    assert_eq!(validate_nickname(&request.nickname), Ok("n2".to_string()));
}
