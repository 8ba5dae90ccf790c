use vstd::prelude::*;

verus! {

/// The scheme word that a bot credential is sent with.
pub open spec fn bot_prefix() -> Seq<char> {
    "Bot "@
}

/// The credential as the gateway expects it: prefixed with "Bot " unless it
/// already starts with it.
pub open spec fn normalized_token(t: Seq<char>) -> Seq<char> {
    if t.len() >= bot_prefix().len() && t.subrange(0, bot_prefix().len() as int) == bot_prefix() {
        t
    } else {
        bot_prefix() + t
    }
}

/// Prefixes the credential with "Bot " unless it already starts with it.
pub fn normalize_token(token: String) -> (r: String)
    ensures
        r@ == normalized_token(token@),
{
    let prefix = "Bot ";
    proof {
        reveal_strlit("Bot ");
    }
    assert(prefix@ == bot_prefix());
    assert(bot_prefix().len() == 4);
    let t = token.as_str();
    let n = t.unicode_len();
    let mut starts = n >= 4;
    let mut i: usize = 0;
    while starts && i < 4
        invariant
            prefix@ == bot_prefix(),
            bot_prefix().len() == 4,
            n == t@.len(),
            t@ == token@,
            starts ==> n >= 4,
            i <= 4,
            starts ==> forall|k: int| 0 <= k < i ==> t@[k] == bot_prefix()[k],
            !starts ==> !(n >= 4 && t@.subrange(0, 4) == bot_prefix()),
        decreases 4 - i,
    {
        if t.get_char(i) != prefix.get_char(i) {
            assert(t@.subrange(0, 4)[i as int] == t@[i as int]);
            assert(t@.subrange(0, 4)[i as int] != bot_prefix()[i as int]);
            starts = false;
        }
        i = i + 1;
    }
    if starts {
        assert(t@.subrange(0, 4) =~= bot_prefix());
        token
    } else {
        String::from_str(prefix).concat(t)
    }
}

} // verus!
