//! Building the text of a line: indentation, decimal numbers, joined tags.

use vstd::prelude::*;
use vstd::string::*;

verus! {

/// The texts that a sequence of strings holds, one for one.
pub open spec fn textos(v: Seq<String>) -> Seq<Seq<char>> {
    Seq::new(v.len(), |i: int| v[i]@)
}

/// Indentation of `n` levels: two spaces for each.
pub open spec fn sangria(n: nat) -> Seq<char>
    decreases n,
{
    if n == 0 {
        Seq::empty()
    } else {
        sangria((n - 1) as nat) + "  "@
    }
}

/// Indentation is two blanks for each level, and nothing else.
pub proof fn sangria_dos_por_nivel(n: nat)
    ensures
        sangria(n).len() == 2 * n,
        forall|i: int| 0 <= i < 2 * n ==> sangria(n)[i] == ' ',
    decreases n,
{
    reveal_strlit("  ");
    if n > 0 {
        sangria_dos_por_nivel((n - 1) as nat);
    }
}

/// The text of one decimal digit.
pub open spec fn digito(d: nat) -> Seq<char> {
    if d == 0 {
        "0"@
    } else if d == 1 {
        "1"@
    } else if d == 2 {
        "2"@
    } else if d == 3 {
        "3"@
    } else if d == 4 {
        "4"@
    } else if d == 5 {
        "5"@
    } else if d == 6 {
        "6"@
    } else if d == 7 {
        "7"@
    } else if d == 8 {
        "8"@
    } else {
        "9"@
    }
}

/// A number written in decimal, without leading zeros.
pub open spec fn decimal(n: nat) -> Seq<char>
    decreases n,
{
    if n < 10 {
        digito(n)
    } else {
        decimal(n / 10) + digito(n % 10)
    }
}

/// The parts joined, with `separador` between each two.
pub open spec fn unir(partes: Seq<Seq<char>>, separador: Seq<char>) -> Seq<char>
    decreases partes.len(),
{
    if partes.len() == 0 {
        Seq::empty()
    } else if partes.len() == 1 {
        partes[0]
    } else {
        unir(partes.drop_last(), separador) + separador + partes.last()
    }
}

/// Appends the indentation of `n` levels to `s`.
pub fn agregar_sangria(s: &mut String, n: usize)
    ensures
        final(s)@ == old(s)@ + sangria(n as nat),
{
    let ghost inicio = s@;
    let mut i: usize = 0;
    assert(s@ =~= inicio + sangria(0));
    while i < n
        invariant
            i <= n,
            s@ == inicio + sangria(i as nat),
        decreases n - i,
    {
        s.append("  ");
        i += 1;
        assert(s@ =~= inicio + sangria(i as nat));
    }
}

fn cifra(d: u64) -> (r: &'static str)
    requires
        d < 10,
    ensures
        r@ == digito(d as nat),
{
    if d == 0 {
        "0"
    } else if d == 1 {
        "1"
    } else if d == 2 {
        "2"
    } else if d == 3 {
        "3"
    } else if d == 4 {
        "4"
    } else if d == 5 {
        "5"
    } else if d == 6 {
        "6"
    } else if d == 7 {
        "7"
    } else if d == 8 {
        "8"
    } else {
        "9"
    }
}

/// Appends `n` in decimal to `s`.
pub fn agregar_decimal(s: &mut String, n: u64)
    ensures
        final(s)@ == old(s)@ + decimal(n as nat),
    decreases n,
{
    let ghost inicio = s@;
    if n >= 10 {
        agregar_decimal(s, n / 10);
    }
    s.append(cifra(n % 10));
    assert(s@ =~= inicio + decimal(n as nat));
}

/// Appends to `s` the parts from the one at `desde` on, with `separador`
/// between each two.
pub fn agregar_unidas(s: &mut String, partes: &Vec<String>, desde: usize, separador: &str)
    requires
        desde <= partes.len(),
    ensures
        final(s)@ == old(s)@ + unir(textos(partes@).skip(desde as int), separador@),
{
    let ghost inicio = s@;
    let ghost todas = textos(partes@).skip(desde as int);
    let mut i: usize = desde;
    assert(todas.take(0) =~= Seq::empty());
    assert(s@ =~= inicio + unir(todas.take(0), separador@));
    while i < partes.len()
        invariant
            desde <= i <= partes.len(),
            todas == textos(partes@).skip(desde as int),
            s@ == inicio + unir(todas.take(i - desde), separador@),
        decreases partes.len() - i,
    {
        if i > desde {
            s.append(separador);
        }
        s.append(partes[i].as_str());
        i += 1;
        proof {
            let previas = todas.take(i - 1 - desde);
            let ahora = todas.take(i - desde);
            assert(ahora.drop_last() =~= previas);
            assert(ahora.last() == partes@[i - 1]@);
            assert(s@ =~= inicio + unir(ahora, separador@));
        }
    }
    assert(todas.take(i - desde) =~= todas);
}

/// `c` is whitespace: one of the characters that Unicode gives the property
/// White_Space.
pub open spec fn espacio(c: char) -> bool {
    let u = c as u32;
    (9 <= u <= 13) || u == 32 || u == 0x85 || u == 0xA0 || u == 0x1680 || (0x2000 <= u <= 0x200A)
        || u == 0x2028 || u == 0x2029 || u == 0x202F || u == 0x205F || u == 0x3000
}

/// The text holds no character that is not whitespace; the empty text is
/// such a text.
pub open spec fn en_blanco(s: Seq<char>) -> bool {
    forall|i: int| 0 <= i < s.len() ==> espacio(#[trigger] s[i])
}

/// Whether `c` is whitespace.
pub fn es_espacio(c: char) -> (r: bool)
    ensures
        r == espacio(c),
{
    let u: u32 = c as u32;
    (9 <= u && u <= 13) || u == 32 || u == 0x85 || u == 0xA0 || u == 0x1680 || (0x2000 <= u && u
        <= 0x200A) || u == 0x2028 || u == 0x2029 || u == 0x202F || u == 0x205F || u == 0x3000
}

/// Whether the text holds no character that is not whitespace.
pub fn esta_en_blanco(s: &str) -> (r: bool)
    ensures
        r == en_blanco(s@),
{
    let n: usize = s.unicode_len();
    let mut i: usize = 0;
    while i < n
        invariant
            i <= n,
            n == s@.len(),
            forall|k: int| 0 <= k < i ==> espacio(#[trigger] s@[k]),
        decreases n - i,
    {
        if !es_espacio(s.get_char(i)) {
            return false;
        }
        i += 1;
    }
    true
}

/// The words of `s` when the characters of `actual`, none of them
/// whitespace, stand right before it as a word begun.
pub open spec fn palabras_con(s: Seq<char>, actual: Seq<char>) -> Seq<Seq<char>>
    decreases s.len(),
{
    let hecha = if actual.len() > 0 {
        seq![actual]
    } else {
        Seq::empty()
    };
    if s.len() == 0 {
        hecha
    } else if espacio(s[0]) {
        hecha + palabras_con(s.drop_first(), Seq::empty())
    } else {
        palabras_con(s.drop_first(), actual.push(s[0]))
    }
}

/// The words of a line: its longest runs of characters that are not
/// whitespace, in order.
pub open spec fn palabras_de(linea: Seq<char>) -> Seq<Seq<char>> {
    palabras_con(linea, Seq::empty())
}

/// The text holds a character, and none that is whitespace.
pub open spec fn sin_espacios(w: Seq<char>) -> bool {
    w.len() > 0 && forall|i: int| 0 <= i < w.len() ==> !espacio(#[trigger] w[i])
}

/// Every word holds a character, and none that is whitespace.
pub proof fn palabras_sin_espacios(s: Seq<char>, actual: Seq<char>)
    requires
        forall|i: int| 0 <= i < actual.len() ==> !espacio(#[trigger] actual[i]),
    ensures
        forall|k: int|
            0 <= k < palabras_con(s, actual).len() ==> sin_espacios(
                #[trigger] palabras_con(s, actual)[k],
            ),
    decreases s.len(),
{
    let todas = palabras_con(s, actual);
    let hecha = if actual.len() > 0 {
        seq![actual]
    } else {
        Seq::empty()
    };
    if s.len() == 0 {
        assert(todas == hecha);
        assert forall|k: int| 0 <= k < todas.len() implies sin_espacios(#[trigger] todas[k]) by {
            assert(todas[k] == actual);
        }
    } else if espacio(s[0]) {
        palabras_sin_espacios(s.drop_first(), Seq::empty());
        let resto = palabras_con(s.drop_first(), Seq::empty());
        assert(todas == hecha + resto);
        assert forall|k: int| 0 <= k < todas.len() implies sin_espacios(#[trigger] todas[k]) by {
            if k < hecha.len() {
                assert(todas[k] == actual);
            } else {
                assert(todas[k] == resto[k - hecha.len()]);
            }
        }
    } else {
        palabras_sin_espacios(s.drop_first(), actual.push(s[0]));
        assert(todas == palabras_con(s.drop_first(), actual.push(s[0])));
    }
}

/// The words of a line.
pub fn palabras(linea: &str) -> (r: Vec<String>)
    ensures
        textos(r@) == palabras_de(linea@),
{
    let n: usize = linea.unicode_len();
    let mut r: Vec<String> = Vec::new();
    let mut i: usize = 0;
    let mut inicio: usize = 0;
    proof {
        assert(linea@.skip(0) =~= linea@);
        assert(linea@.subrange(0, 0) =~= Seq::<char>::empty());
        assert(textos(r@) + palabras_de(linea@) =~= palabras_de(linea@));
    }
    while i < n
        invariant
            inicio <= i <= n,
            n == linea@.len(),
            textos(r@) + palabras_con(linea@.skip(i as int), linea@.subrange(inicio as int, i as int))
                == palabras_de(linea@),
        decreases n - i,
    {
        let ghost resto = linea@.skip(i as int);
        let ghost actual = linea@.subrange(inicio as int, i as int);
        let ghost previas = textos(r@);
        proof {
            assert(resto[0] == linea@[i as int]);
            assert(resto.drop_first() =~= linea@.skip(i + 1));
            assert(actual.push(linea@[i as int]) =~= linea@.subrange(inicio as int, i + 1));
            assert(linea@.subrange(i + 1, i + 1) =~= Seq::<char>::empty());
        }
        if es_espacio(linea.get_char(i)) {
            if inicio < i {
                r.push(String::from_str(linea.substring_char(inicio, i)));
                assert(textos(r@) =~= previas + seq![actual]);
            }
            i += 1;
            inicio = i;
            assert(textos(r@) + palabras_con(linea@.skip(i as int), Seq::empty()) =~= previas
                + palabras_con(resto, actual));
        } else {
            i += 1;
        }
    }
    let ghost previas = textos(r@);
    let ghost actual = linea@.subrange(inicio as int, i as int);
    assert(linea@.skip(i as int) =~= Seq::<char>::empty());
    if inicio < i {
        r.push(String::from_str(linea.substring_char(inicio, i)));
        assert(textos(r@) =~= previas + seq![actual]);
    } else {
        assert(textos(r@) =~= previas + Seq::<Seq<char>>::empty());
    }
    r
}

/// The number that one decimal digit stands for; 0 for any other character.
pub open spec fn valor_cifra(c: char) -> nat {
    if es_cifra(c) {
        (c as u32 - 48) as nat
    } else {
        0
    }
}

/// `c` is one of the digits 0 to 9.
pub open spec fn es_cifra(c: char) -> bool {
    48 <= c as u32 <= 57
}

/// The number that a run of decimal digits stands for.
pub open spec fn valor_cifras(s: Seq<char>) -> nat
    decreases s.len(),
{
    if s.len() == 0 {
        0
    } else {
        valor_cifras(s.drop_last()) * 10 + valor_cifra(s.last())
    }
}

/// The text without the plus sign that it may start with.
pub open spec fn sin_signo(s: Seq<char>) -> Seq<char> {
    if s.len() > 0 && s[0] == '+' {
        s.drop_first()
    } else {
        s
    }
}

/// The number that `s` stands for: one or more decimal digits, after at most
/// one plus sign, that give a number no greater than `max`. `None` for any
/// other text.
pub open spec fn numero(s: Seq<char>, max: nat) -> Option<nat> {
    let cifras = sin_signo(s);
    if cifras.len() > 0 && (forall|k: int| 0 <= k < cifras.len() ==> es_cifra(#[trigger] cifras[k]))
        && valor_cifras(cifras) <= max {
        Some(valor_cifras(cifras))
    } else {
        None
    }
}

proof fn valor_crece(s: Seq<char>, k: int)
    requires
        0 <= k <= s.len(),
    ensures
        valor_cifras(s.take(k)) <= valor_cifras(s),
    decreases s.len(),
{
    if k == s.len() {
        assert(s.take(k) =~= s);
    } else {
        valor_crece(s.drop_last(), k);
        assert(s.drop_last().take(k) =~= s.take(k));
    }
}

/// Reads a number no greater than `max` from its decimal text.
pub fn leer_numero(s: &str, max: u64) -> (r: Option<u64>)
    ensures
        r.is_some() == numero(s@, max as nat).is_some(),
        r.is_some() ==> r.unwrap() == numero(s@, max as nat).unwrap(),
{
    let n: usize = s.unicode_len();
    let mut i: usize = 0;
    if n > 0 && s.get_char(0) == '+' {
        i = 1;
    }
    let inicio: usize = i;
    let ghost cifras = sin_signo(s@);
    assert(cifras =~= s@.skip(inicio as int));
    if i == n {
        return None;
    }
    let mut acc: u64 = 0;
    assert(cifras.take(0) =~= Seq::<char>::empty());
    while i < n
        invariant
            inicio <= i <= n,
            n == s@.len(),
            cifras == s@.skip(inicio as int),
            cifras == sin_signo(s@),
            forall|k: int| 0 <= k < i - inicio ==> es_cifra(#[trigger] cifras[k]),
            acc == valor_cifras(cifras.take(i - inicio)),
            acc <= max,
        decreases n - i,
    {
        let u: u32 = s.get_char(i) as u32;
        assert(cifras[i - inicio] == s@[i as int]);
        proof {
            valor_crece(cifras, i - inicio + 1);
            assert(cifras.take(i - inicio + 1).drop_last() =~= cifras.take(i - inicio));
        }
        if u < 48 || u > 57 {
            return None;
        }
        let d: u64 = (u - 48) as u64;
        proof {
            let hasta = cifras.take(i - inicio + 1);
            assert(hasta.last() == cifras[i - inicio]);
            assert(valor_cifra(hasta.last()) == d);
            assert(valor_cifras(hasta) == acc * 10 + d);
        }
        if acc > max / 10 {
            return None;
        }
        if d > max - acc * 10 {
            return None;
        }
        acc = acc * 10 + d;
        i += 1;
    }
    assert(cifras.take(i - inicio) =~= cifras);
    Some(acc)
}

} // verus!
